//! The shared GPU parameter set: one fixed-size uniform buffer per semantic
//! scalar group.
//!
//! Every render pass binds the same buffer instance for a given group, so
//! there is exactly one writer location per scalar per frame.  This module
//! keeps the authoritative CPU-side contents of each group as binary32 bit
//! patterns; the unverified device layer mirrors each write into the GPU
//! buffer at the group's fixed binding slot.

use vstd::prelude::*;

use crate::fbits::{F32_ONE_BITS, F32_ZERO_BITS};

verus! {

/// The semantic scalar groups of the parameter set.
#[derive(Clone, Copy, Debug, PartialEq, Eq, Hash, Structural)]
pub enum Group {
    /// 4x4 rotation matrix.
    Rotation,
    /// Viewport size in pixels.
    Viewport,
    /// Elapsed time scalar.
    Time,
    /// Camera orientation (azimuth, polar).
    Camera,
    /// Intensity cuts (scale, offset).
    Cuts,
    /// Perspective projection toggle.
    Perspective,
    /// Declared min/max display range.
    MinMax,
}

/// Number of 32-bit words a group holds: the rotation matrix is 16 floats
/// (64 bytes); every scalar group is one 16-byte aligned slot of 4 floats.
pub open spec fn group_arity(g: Group) -> nat {
    match g {
        Group::Rotation => 16,
        _ => 4,
    }
}

/// The fixed binding slot of a group, shared by all passes that read it.
pub open spec fn group_binding(g: Group) -> nat {
    match g {
        Group::Rotation => 2,
        Group::Viewport => 3,
        Group::Time => 4,
        Group::Camera => 5,
        Group::Cuts => 6,
        Group::Perspective => 7,
        Group::MinMax => 8,
    }
}

/// Executable arity of a group.
pub fn arity_of(g: Group) -> (n: usize)
    ensures
        n == group_arity(g),
{
    match g {
        Group::Rotation => 16,
        _ => 4,
    }
}

/// Executable binding slot of a group.
pub fn binding_of(g: Group) -> (n: u32)
    ensures
        n == group_binding(g),
{
    match g {
        Group::Rotation => 2,
        Group::Viewport => 3,
        Group::Time => 4,
        Group::Camera => 5,
        Group::Cuts => 6,
        Group::Perspective => 7,
        Group::MinMax => 8,
    }
}

/// Size of a group's uniform buffer in bytes.
pub fn byte_size_of(g: Group) -> (n: u64)
    ensures
        n == group_arity(g) * 4,
{
    match g {
        Group::Rotation => 64,
        _ => 16,
    }
}

/// The CPU-side contents of the seven uniform buffers, as binary32 bit
/// patterns.
pub struct ParameterSet {
    pub rotation: Vec<u32>,
    pub viewport: Vec<u32>,
    pub time: Vec<u32>,
    pub camera: Vec<u32>,
    pub cuts: Vec<u32>,
    pub perspective: Vec<u32>,
    pub minmax: Vec<u32>,
}

impl ParameterSet {
    /// The words of one group.
    pub open spec fn group_words(self, g: Group) -> Seq<u32> {
        match g {
            Group::Rotation => self.rotation@,
            Group::Viewport => self.viewport@,
            Group::Time => self.time@,
            Group::Camera => self.camera@,
            Group::Cuts => self.cuts@,
            Group::Perspective => self.perspective@,
            Group::MinMax => self.minmax@,
        }
    }

    /// Every group holds exactly its declared number of words.
    pub open spec fn wf(self) -> bool {
        forall|g: Group| (#[trigger] self.group_words(g)).len() == group_arity(g)
    }

    /// The neutral intensity cuts: scale 1.0, offset 0.0.
    pub open spec fn neutral_cuts() -> Seq<u32> {
        seq![F32_ONE_BITS, F32_ZERO_BITS, F32_ZERO_BITS, F32_ZERO_BITS]
    }

    /// The default display range [0.0, 1.0].
    pub open spec fn default_minmax() -> Seq<u32> {
        seq![F32_ZERO_BITS, F32_ONE_BITS, F32_ZERO_BITS, F32_ZERO_BITS]
    }

    /// Create the parameter set with deterministic initial contents:
    /// everything zeroed except the cuts, set to the neutral passthrough,
    /// and the min/max range, set to [0.0, 1.0].
    pub fn allocate() -> (ps: ParameterSet)
        ensures
            ps.wf(),
            ps.group_words(Group::Rotation) =~= Seq::new(16, |i: int| F32_ZERO_BITS),
            ps.group_words(Group::Viewport) =~= Seq::new(4, |i: int| F32_ZERO_BITS),
            ps.group_words(Group::Time) =~= Seq::new(4, |i: int| F32_ZERO_BITS),
            ps.group_words(Group::Camera) =~= Seq::new(4, |i: int| F32_ZERO_BITS),
            ps.group_words(Group::Perspective) =~= Seq::new(4, |i: int| F32_ZERO_BITS),
            ps.group_words(Group::Cuts) == Self::neutral_cuts(),
            ps.group_words(Group::MinMax) == Self::default_minmax(),
    {
        let ps = ParameterSet {
            rotation: zero_words(16),
            viewport: zero_words(4),
            time: zero_words(4),
            camera: zero_words(4),
            cuts: vec![F32_ONE_BITS, F32_ZERO_BITS, F32_ZERO_BITS, F32_ZERO_BITS],
            perspective: zero_words(4),
            minmax: vec![F32_ZERO_BITS, F32_ONE_BITS, F32_ZERO_BITS, F32_ZERO_BITS],
        };
        proof {
            assert(ps.group_words(Group::Cuts) =~= Self::neutral_cuts());
            assert(ps.group_words(Group::MinMax) =~= Self::default_minmax());
            assert forall|g: Group| (#[trigger] ps.group_words(g)).len() == group_arity(g) by {
                match g {
                    Group::Rotation => assert(ps.group_words(g).len() == 16),
                    _ => assert(ps.group_words(g).len() == 4),
                }
            }
        }
        ps
    }

    /// Overwrite one group with the given words; the value count must match
    /// the group's declared arity (a mismatch is a programming error, to be
    /// rejected before the call).  All other groups are untouched.
    pub fn write_group(&mut self, g: Group, vals: &Vec<u32>)
        requires
            old(self).wf(),
            vals@.len() == group_arity(g),
        ensures
            final(self).wf(),
            final(self).group_words(g) == vals@,
            forall|g2: Group| g2 != g ==> #[trigger] final(self).group_words(g2) == old(
                self,
            ).group_words(g2),
    {
        let mut copy: Vec<u32> = Vec::new();
        let mut i: usize = 0;
        while i < vals.len()
            invariant
                i <= vals.len(),
                copy@ =~= vals@.subrange(0, i as int),
            decreases vals.len() - i,
        {
            copy.push(vals[i]);
            i = i + 1;
        }
        proof {
            assert(copy@ =~= vals@);
        }
        match g {
            Group::Rotation => self.rotation = copy,
            Group::Viewport => self.viewport = copy,
            Group::Time => self.time = copy,
            Group::Camera => self.camera = copy,
            Group::Cuts => self.cuts = copy,
            Group::Perspective => self.perspective = copy,
            Group::MinMax => self.minmax = copy,
        }
        proof {
            assert forall|g2: Group| (#[trigger] self.group_words(g2)).len() == group_arity(
                g2,
            ) by {
                if g2 != g {
                    assert(self.group_words(g2) == old(self).group_words(g2));
                }
            }
        }
    }
}

/// A vector of `n` zero words.
fn zero_words(n: usize) -> (v: Vec<u32>)
    ensures
        v@ =~= Seq::new(n as nat, |i: int| F32_ZERO_BITS),
{
    let mut v: Vec<u32> = Vec::new();
    let mut i: usize = 0;
    while i < n
        invariant
            i <= n,
            v@ =~= Seq::new(i as nat, |k: int| F32_ZERO_BITS),
        decreases n - i,
    {
        v.push(F32_ZERO_BITS);
        i = i + 1;
    }
    v
}

} // verus!
