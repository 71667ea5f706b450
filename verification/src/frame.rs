//! Per-frame render orchestration.
//!
//! A frame runs acquire → volumetric pass → selector pass → UI pass →
//! present, all against one color target and one command buffer, so
//! submission order fixes the visual stacking order.  A failed surface
//! acquisition (lost or minimized) skips presentation silently — update
//! logic still ran, and the next frame tries again.  This module decides
//! the plan; the device layer executes it.

use vstd::prelude::*;

use crate::fbits::F32_ONE_BITS;
use crate::params::{group_binding, Group};

verus! {

/// Bit pattern of the binary32 value -1.0.
pub const F32_NEG_ONE_BITS: u32 = 0xBF80_0000;

/// The render passes of one frame, in submission order.
#[derive(Clone, Copy, Debug, PartialEq, Eq, Structural)]
pub enum Pass {
    /// Opaque ray-marching program over the volume texture.
    Volumetric,
    /// Opaque overlay program, alpha-blended on top.
    Selector,
    /// The external GUI overlay.
    Ui,
}

/// How acquiring the frame's color target went.
#[derive(Clone, Copy, Debug, PartialEq, Eq, Structural)]
pub enum AcquireOutcome {
    Ready,
    /// Surface lost or otherwise unavailable; try again next frame.
    Lost,
}

/// What this frame does.
#[derive(Clone, Copy, Debug, PartialEq, Eq, Structural)]
pub enum FramePlan {
    /// Abort the frame silently: no partial passes, no present.
    Skip,
    /// Run all passes in submission order, then present.
    Render,
}

/// Whether a frame can be rendered at all: the window has area, the
/// surface is configured, and a target was acquired.
pub open spec fn renderable(
    outcome: AcquireOutcome,
    configured: bool,
    width: u32,
    height: u32,
) -> bool {
    width > 0 && height > 0 && configured && outcome is Ready
}

/// Decide the frame: render exactly when a target is available, otherwise
/// skip presentation without failing.
pub fn plan_frame(outcome: AcquireOutcome, configured: bool, width: u32, height: u32) -> (plan:
    FramePlan)
    ensures
        plan == FramePlan::Render <==> renderable(outcome, configured, width, height),
{
    if width > 0 && height > 0 && configured {
        match outcome {
            AcquireOutcome::Ready => FramePlan::Render,
            AcquireOutcome::Lost => FramePlan::Skip,
        }
    } else {
        FramePlan::Skip
    }
}

/// The submission order of a rendered frame: volumetric beneath selector
/// beneath UI.
pub fn pass_order() -> (order: Vec<Pass>)
    ensures
        order@ == seq![Pass::Volumetric, Pass::Selector, Pass::Ui],
{
    let order = vec![Pass::Volumetric, Pass::Selector, Pass::Ui];
    proof {
        assert(order@ =~= seq![Pass::Volumetric, Pass::Selector, Pass::Ui]);
    }
    order
}

/// The scalar groups a pass binds, each at its fixed slot from
/// `group_binding`; the layout is identical on every frame and across cube
/// swaps.  The volume texture and its sampler sit at slots 0 and 1 of the
/// same bind group.  The UI pass binds none of them: it is delegated to
/// the external overlay, which only receives the target view and frame
/// sizing.
pub open spec fn pass_groups(p: Pass) -> Seq<Group> {
    match p {
        Pass::Volumetric => seq![
            Group::Rotation,
            Group::Viewport,
            Group::Time,
            Group::Camera,
            Group::Cuts,
            Group::Perspective,
            Group::MinMax,
        ],
        Pass::Selector => seq![
            Group::Rotation,
            Group::Viewport,
            Group::Time,
            Group::Camera,
            Group::Cuts,
            Group::Perspective,
        ],
        Pass::Ui => seq![],
    }
}

/// The uniform binding slots of a pass, in binding order.
pub fn pass_bindings(p: Pass) -> (slots: Vec<u32>)
    ensures
        slots@.len() == pass_groups(p).len(),
        forall|i: int|
            0 <= i < slots@.len() ==> #[trigger] slots@[i] == group_binding(pass_groups(p)[i]),
{
    let slots = match p {
        Pass::Volumetric => vec![2, 3, 4, 5, 6, 7, 8],
        Pass::Selector => vec![2, 3, 4, 5, 6, 7],
        Pass::Ui => Vec::new(),
    };
    proof {
        assert forall|i: int| 0 <= i < slots@.len() implies #[trigger] slots@[i] == group_binding(
            pass_groups(p)[i],
        ) by {
            match p {
                Pass::Volumetric => {
                    assert(slots@ =~= seq![2u32, 3, 4, 5, 6, 7, 8]);
                },
                Pass::Selector => {
                    assert(slots@ =~= seq![2u32, 3, 4, 5, 6, 7]);
                },
                Pass::Ui => {},
            }
        }
    }
    slots
}

/// The full-screen quad every screen pass draws: four corner vertices in
/// normalized device coordinates, as binary32 bit-pattern pairs.
pub fn quad_vertices() -> (v: Vec<u32>)
    ensures
        v@ == seq![
            F32_NEG_ONE_BITS,
            F32_NEG_ONE_BITS,
            F32_ONE_BITS,
            F32_NEG_ONE_BITS,
            F32_ONE_BITS,
            F32_ONE_BITS,
            F32_NEG_ONE_BITS,
            F32_ONE_BITS,
        ],
{
    let v = vec![
        F32_NEG_ONE_BITS,
        F32_NEG_ONE_BITS,
        F32_ONE_BITS,
        F32_NEG_ONE_BITS,
        F32_ONE_BITS,
        F32_ONE_BITS,
        F32_NEG_ONE_BITS,
        F32_ONE_BITS,
    ];
    proof {
        assert(v@ =~= seq![
            F32_NEG_ONE_BITS,
            F32_NEG_ONE_BITS,
            F32_ONE_BITS,
            F32_NEG_ONE_BITS,
            F32_ONE_BITS,
            F32_ONE_BITS,
            F32_NEG_ONE_BITS,
            F32_ONE_BITS,
        ]);
    }
    v
}

/// The index list drawing the quad as two triangles (six indices).
pub fn quad_indices() -> (idx: Vec<u32>)
    ensures
        idx@ == seq![0u32, 1, 2, 0, 2, 3],
{
    let idx = vec![0u32, 1, 2, 0, 2, 3];
    proof {
        assert(idx@ =~= seq![0u32, 1, 2, 0, 2, 3]);
    }
    idx
}

} // verus!
