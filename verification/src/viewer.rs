//! The viewer's GPU-facing state: the shared parameter set and the bound
//! volume, with the load pipeline that replaces one dataset by another.
//!
//! A load validates the cube against the device limit, binds the new
//! volume, resets the intensity cuts to the neutral passthrough and sets
//! the min/max range — an explicitly supplied range first, else the range
//! the dataset declares, else the automatically clipped one.  A failed
//! load changes nothing: the previously displayed volume and all uniforms
//! stay as they were, and the viewer keeps rendering its last good state.

use vstd::prelude::*;

use crate::facade::range_words;
use crate::ingest::Cube;
use crate::params::{Group, ParameterSet};
use crate::volume::{fits_limit, GpuError, UploadPlan, VolumeHandle, VolumeStore};

verus! {

/// One bound of the display range: an explicit override wins, else the
/// range declared by the dataset, else the computed fallback.
pub open spec fn chosen_bound(over: Option<u32>, declared: Option<u32>, fallback: u32) -> u32 {
    match over {
        Some(b) => b,
        None => match declared {
            Some(b) => b,
            None => fallback,
        },
    }
}

/// Executable choice of one display-range bound.
pub fn choose_bound(over: Option<u32>, declared: Option<u32>, fallback: u32) -> (b: u32)
    ensures
        b == chosen_bound(over, declared, fallback),
{
    match over {
        Some(b) => b,
        None => match declared {
            Some(b) => b,
            None => fallback,
        },
    }
}

/// The GPU-facing viewer state: one parameter set shared by every pass,
/// and the currently bound volume.
pub struct Viewer {
    pub params: ParameterSet,
    pub volume: VolumeStore,
}

impl Viewer {
    pub open spec fn wf(self) -> bool {
        self.params.wf()
    }

    /// A viewer with freshly allocated uniforms and no volume bound.
    pub fn new() -> (v: Viewer)
        ensures
            v.wf(),
            v.volume.current is None,
            v.params.group_words(Group::Cuts) == ParameterSet::neutral_cuts(),
            v.params.group_words(Group::MinMax) == ParameterSet::default_minmax(),
    {
        Viewer { params: ParameterSet::allocate(), volume: VolumeStore::new() }
    }

    /// Replace the displayed dataset.
    ///
    /// Fails with `VolumeTooLarge` exactly when some axis of the cube
    /// exceeds the device's 3D-texture limit, leaving the bound volume and
    /// every uniform untouched.  On success the new volume is bound and
    /// its upload layout returned for the device layer to execute, the
    /// cuts are reset to the neutral passthrough, the min/max range is set
    /// from the override, the declared range or the auto cut, and no other
    /// uniform moves.
    ///
    /// `declared_min` / `declared_max` are the cube's declared range,
    /// which the shell demotes from binary64 to binary32 bits before the
    /// call (the uniform holds binary32 values).
    pub fn load_cube(
        &mut self,
        cube: &Cube,
        override_min: Option<u32>,
        override_max: Option<u32>,
        declared_min: Option<u32>,
        declared_max: Option<u32>,
        limit: u32,
    ) -> (r: Result<(VolumeHandle, UploadPlan), GpuError>)
        requires
            old(self).wf(),
        ensures
            final(self).wf(),
            !fits_limit(cube.width, cube.height, cube.depth, limit) ==> {
                &&& r == Err::<(VolumeHandle, UploadPlan), GpuError>(GpuError::VolumeTooLarge)
                &&& final(self).volume == old(self).volume
                &&& final(self).params == old(self).params
            },
            fits_limit(cube.width, cube.height, cube.depth, limit) ==> {
                let handle = VolumeHandle {
                    id: old(self).volume.next_id,
                    width: cube.width,
                    height: cube.height,
                    depth: cube.depth,
                };
                &&& r == Ok::<(VolumeHandle, UploadPlan), GpuError>(
                    (
                        handle,
                        UploadPlan {
                            width: cube.width,
                            height: cube.height,
                            depth: cube.depth,
                            bytes_per_row: (4 * cube.width as u64) as u64,
                            rows_per_image: cube.height,
                        },
                    ),
                )
                &&& final(self).volume.current == Some(handle)
                &&& final(self).params.group_words(Group::Cuts) == ParameterSet::neutral_cuts()
                &&& final(self).params.group_words(Group::MinMax) == range_words(
                    chosen_bound(override_min, declared_min, cube.auto_low),
                    chosen_bound(override_max, declared_max, cube.auto_high),
                )
                &&& forall|g: Group|
                    g != Group::Cuts && g != Group::MinMax
                        ==> #[trigger] final(self).params.group_words(g) == old(
                        self,
                    ).params.group_words(g)
            },
    {
        let uploaded = self.volume.upload_volume(cube.width, cube.height, cube.depth, limit);
        match uploaded {
            Err(e) => Err(e),
            Ok(bound) => {
                let low = choose_bound(override_min, declared_min, cube.auto_low);
                let high = choose_bound(override_max, declared_max, cube.auto_high);
                let minmax = vec![low, high, crate::fbits::F32_ZERO_BITS, crate::fbits::F32_ZERO_BITS];
                proof {
                    assert(minmax@ =~= range_words(low, high));
                }
                self.params.write_group(Group::MinMax, &minmax);
                let cuts = vec![
                    crate::fbits::F32_ONE_BITS,
                    crate::fbits::F32_ZERO_BITS,
                    crate::fbits::F32_ZERO_BITS,
                    crate::fbits::F32_ZERO_BITS,
                ];
                proof {
                    assert(cuts@ =~= ParameterSet::neutral_cuts());
                }
                self.params.write_group(Group::Cuts, &cuts);
                Ok(bound)
            },
        }
    }
}

/// The viewport extent after a resize notification: a notification with a
/// zero axis leaves the previous extent in place (a minimized window skips
/// reconfiguration), any other notification replaces it.
pub fn apply_resize(cur_w: u32, cur_h: u32, new_w: u32, new_h: u32) -> (r: (u32, u32))
    ensures
        new_w > 0 && new_h > 0 ==> r == (new_w, new_h),
        !(new_w > 0 && new_h > 0) ==> r == (cur_w, cur_h),
{
    if new_w > 0 && new_h > 0 {
        (new_w, new_h)
    } else {
        (cur_w, cur_h)
    }
}

} // verus!
