use cubevis::facade::{Catalog, CatalogEntry, ParamQueue};
use cubevis::frame::{plan_frame, quad_indices, quad_vertices, AcquireOutcome, FramePlan};
use cubevis::ingest::{ingest, CardVal, Header};
use cubevis::params::{arity_of, binding_of, byte_size_of, Group, ParameterSet};
use cubevis::viewer::{apply_resize, Viewer};
use cubevis::volume::{plan_upload, GpuError, VolumeStore};

#[test]
fn parameter_set_initial_contents() {
    let ps = ParameterSet::allocate();
    assert_eq!(ps.rotation, vec![0u32; 16]);
    assert_eq!(ps.cuts, vec![1.0f32.to_bits(), 0, 0, 0]);
    assert_eq!(ps.minmax, vec![0, 1.0f32.to_bits(), 0, 0]);
    assert_eq!(ps.perspective, vec![0u32; 4]);
}

#[test]
fn group_layout_constants() {
    assert_eq!(arity_of(Group::Rotation), 16);
    assert_eq!(byte_size_of(Group::Rotation), 64);
    for g in [Group::Viewport, Group::Time, Group::Camera, Group::Cuts, Group::Perspective,
        Group::MinMax] {
        assert_eq!(arity_of(g), 4);
        assert_eq!(byte_size_of(g), 16);
    }
    assert_eq!(binding_of(Group::Rotation), 2);
    assert_eq!(binding_of(Group::Viewport), 3);
    assert_eq!(binding_of(Group::Time), 4);
    assert_eq!(binding_of(Group::Camera), 5);
    assert_eq!(binding_of(Group::Cuts), 6);
    assert_eq!(binding_of(Group::Perspective), 7);
    assert_eq!(binding_of(Group::MinMax), 8);
}

#[test]
fn write_group_touches_only_its_group() {
    let mut ps = ParameterSet::allocate();
    let words = vec![1u32, 2, 3, 4];
    ps.write_group(Group::Camera, &words);
    assert_eq!(ps.camera, vec![1, 2, 3, 4]);
    assert_eq!(ps.cuts, vec![1.0f32.to_bits(), 0, 0, 0]);
    assert_eq!(ps.time, vec![0u32; 4]);
}

#[test]
fn upload_rejected_beyond_device_limit() {
    // any dimension exceeding the declared 3D-texture limit fails, and the
    // previously bound volume handle is unchanged
    let mut store = VolumeStore::new();
    let first = store.upload_volume(8, 8, 8, 512).unwrap().0;
    let before = store.current;
    assert_eq!(store.upload_volume(8, 513, 8, 512), Err(GpuError::VolumeTooLarge));
    assert_eq!(store.current, before);
    assert_eq!(store.current, Some(first));
}

#[test]
fn upload_plan_row_pitch() {
    let plan = plan_upload(640, 480, 32, 2048).unwrap();
    assert_eq!(plan.bytes_per_row, 4 * 640);
    assert_eq!(plan.rows_per_image, 480);
    assert_eq!((plan.width, plan.height, plan.depth), (640, 480, 32));
}

fn small_cube() -> cubevis::ingest::Cube {
    let header = Header {
        naxis1: Some(CardVal::Int(2)),
        naxis2: Some(CardVal::Int(2)),
        naxis3: Some(CardVal::Int(1)),
        naxis4: None,
        bitpix: Some(CardVal::Int(-32)),
        datamin: None,
        datamax: None,
    };
    let mut data = Vec::new();
    for v in [0.0f32, 1.0, 2.0, 3.0] {
        data.extend_from_slice(&v.to_bits().to_be_bytes());
    }
    ingest(&header, &data).unwrap()
}

#[test]
fn load_cube_resets_cuts_and_sets_range() {
    let mut viewer = Viewer::new();
    let cube = small_cube();
    // scribble on the cuts first
    viewer.params.write_group(Group::Cuts, &vec![9, 9, 9, 9]);
    let declared = None;
    let r = viewer.load_cube(&cube, None, None, declared, declared, 512);
    assert!(r.is_ok());
    assert_eq!(viewer.params.cuts, vec![1.0f32.to_bits(), 0, 0, 0]);
    // no override and no declared range: the auto cut is used
    assert_eq!(viewer.params.minmax, vec![cube.auto_low, cube.auto_high, 0, 0]);
    let handle = viewer.volume.current.unwrap();
    assert_eq!((handle.width, handle.height, handle.depth), (2, 2, 1));
}

#[test]
fn load_cube_override_beats_declared_and_auto() {
    let mut viewer = Viewer::new();
    let cube = small_cube();
    let omin = 5.0f32.to_bits();
    let omax = 6.0f32.to_bits();
    let dmin = 7.0f32.to_bits();
    viewer.load_cube(&cube, Some(omin), Some(omax), Some(dmin), None, 512).unwrap();
    assert_eq!(viewer.params.minmax, vec![omin, omax, 0, 0]);
    // declared wins over auto when there is no override
    viewer.load_cube(&cube, None, None, Some(dmin), None, 512).unwrap();
    assert_eq!(viewer.params.minmax, vec![dmin, cube.auto_high, 0, 0]);
}

#[test]
fn load_cube_too_large_changes_nothing() {
    let mut viewer = Viewer::new();
    let cube = small_cube();
    viewer.load_cube(&cube, None, None, None, None, 512).unwrap();
    let minmax_before = viewer.params.minmax.clone();
    let bound_before = viewer.volume.current;
    let r = viewer.load_cube(&cube, None, None, None, None, 1);
    assert_eq!(r, Err(GpuError::VolumeTooLarge));
    assert_eq!(viewer.params.minmax, minmax_before);
    assert_eq!(viewer.volume.current, bound_before);
}

#[test]
fn frame_planned_only_when_target_available() {
    assert_eq!(plan_frame(AcquireOutcome::Ready, true, 640, 480), FramePlan::Render);
    assert_eq!(plan_frame(AcquireOutcome::Lost, true, 640, 480), FramePlan::Skip);
    assert_eq!(plan_frame(AcquireOutcome::Ready, false, 640, 480), FramePlan::Skip);
    assert_eq!(plan_frame(AcquireOutcome::Ready, true, 0, 480), FramePlan::Skip);
    assert_eq!(plan_frame(AcquireOutcome::Ready, true, 640, 0), FramePlan::Skip);
}

#[test]
fn full_screen_quad_geometry() {
    assert_eq!(quad_indices(), vec![0, 1, 2, 0, 2, 3]);
    let one = 1.0f32.to_bits();
    let neg = (-1.0f32).to_bits();
    assert_eq!(quad_vertices(), vec![neg, neg, one, neg, one, one, neg, one]);
}

#[test]
fn resize_ignores_zero_extents() {
    assert_eq!(apply_resize(640, 480, 800, 600), (800, 600));
    assert_eq!(apply_resize(640, 480, 0, 600), (640, 480));
    assert_eq!(apply_resize(640, 480, 800, 0), (640, 480));
}

#[test]
fn param_queue_applies_in_order_and_hands_back_data() {
    let mut q = ParamQueue::new();
    let mut ps = ParameterSet::allocate();
    q.set_perspective(true);
    q.normalize(2.0f32.to_bits(), 3.0f32.to_bits());
    q.display(vec![1, 2, 3]);
    // first tick: the perspective message
    assert_eq!(q.drain_one(&mut ps), None);
    assert_eq!(ps.perspective, vec![1.0f32.to_bits(), 0, 0, 0]);
    // second tick: the range message
    assert_eq!(q.drain_one(&mut ps), None);
    assert_eq!(ps.minmax, vec![2.0f32.to_bits(), 3.0f32.to_bits(), 0, 0]);
    // third tick: the dataset message is handed back for loading
    assert_eq!(q.drain_one(&mut ps), Some(vec![1, 2, 3]));
    // nothing pending: nothing changes
    assert_eq!(q.drain_one(&mut ps), None);
    assert_eq!(ps.perspective, vec![1.0f32.to_bits(), 0, 0, 0]);
}

#[test]
fn catalog_advances_cyclically() {
    let entries = vec![
        CatalogEntry { location: "a".to_string(), range: None },
        CatalogEntry { location: "b".to_string(), range: Some((0, 1)) },
        CatalogEntry { location: "c".to_string(), range: None },
    ];
    let mut c = Catalog::new(entries);
    assert_eq!(c.index, 0);
    assert_eq!(c.advance(), 1);
    assert_eq!(c.advance(), 2);
    assert_eq!(c.advance(), 0);
    assert_eq!(c.advance(), 1);
}
