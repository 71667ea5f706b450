//! The remote parameter-injection facade and the dataset catalog.
//!
//! A remote control surface (for instance a browser page around the
//! viewer) delivers three kinds of requests asynchronously: set the
//! perspective flag, set the normalization range, and load a new dataset
//! from raw bytes.  Requests are queued and drained one message per frame
//! tick, each message applied in the fixed order perspective, range,
//! dataset.  The catalog is the fixed list of known datasets the "next
//! dataset" key cycles through, each with an optional known display range.

use vstd::prelude::*;

use crate::fbits::{F32_ONE_BITS, F32_ZERO_BITS};
use crate::params::{Group, ParameterSet};

verus! {

/// One remote request: any subset of the three operations.
pub struct Params {
    /// Set the perspective projection flag.
    pub perspective: Option<bool>,
    /// Set the declared display range: low and high as binary32 bits.
    pub range: Option<(u32, u32)>,
    /// Load a new dataset from these container bytes.
    pub data: Option<Vec<u8>>,
}

/// The words the perspective uniform takes for a flag value.
pub open spec fn perspective_words(on: bool) -> Seq<u32> {
    seq![
        if on {
            F32_ONE_BITS
        } else {
            F32_ZERO_BITS
        },
        F32_ZERO_BITS,
        F32_ZERO_BITS,
        F32_ZERO_BITS,
    ]
}

/// The words the min/max uniform takes for a display range.
pub open spec fn range_words(low: u32, high: u32) -> Seq<u32> {
    seq![low, high, F32_ZERO_BITS, F32_ZERO_BITS]
}

/// The queue of pending remote requests, drained once per frame tick.
pub struct ParamQueue {
    pub pending: Vec<Params>,
}

impl ParamQueue {
    /// An empty queue.
    pub fn new() -> (q: ParamQueue)
        ensures
            q.pending@.len() == 0,
    {
        ParamQueue { pending: Vec::new() }
    }

    /// Queue a perspective-flag request.
    pub fn set_perspective(&mut self, on: bool)
        ensures
            final(self).pending@.len() == old(self).pending@.len() + 1,
            final(self).pending@.subrange(0, old(self).pending@.len() as int) == old(
                self,
            ).pending@,
            final(self).pending@.last().perspective == Some(on),
            final(self).pending@.last().range is None,
            final(self).pending@.last().data is None,
    {
        self.pending.push(Params { perspective: Some(on), range: None, data: None });
        proof {
            assert(final(self).pending@.subrange(0, old(self).pending@.len() as int) =~= old(
                self,
            ).pending@);
        }
    }

    /// Queue a normalization-range request; the pair is taken as given
    /// (low <= high is not enforced).
    pub fn normalize(&mut self, low: u32, high: u32)
        ensures
            final(self).pending@.len() == old(self).pending@.len() + 1,
            final(self).pending@.subrange(0, old(self).pending@.len() as int) == old(
                self,
            ).pending@,
            final(self).pending@.last().perspective is None,
            final(self).pending@.last().range == Some((low, high)),
            final(self).pending@.last().data is None,
    {
        self.pending.push(Params { perspective: None, range: Some((low, high)), data: None });
        proof {
            assert(final(self).pending@.subrange(0, old(self).pending@.len() as int) =~= old(
                self,
            ).pending@);
        }
    }

    /// Queue a dataset-load request carrying the raw container bytes.
    pub fn display(&mut self, data: Vec<u8>)
        ensures
            final(self).pending@.len() == old(self).pending@.len() + 1,
            final(self).pending@.subrange(0, old(self).pending@.len() as int) == old(
                self,
            ).pending@,
            final(self).pending@.last().perspective is None,
            final(self).pending@.last().range is None,
            final(self).pending@.last().data == Some(data),
    {
        self.pending.push(Params { perspective: None, range: None, data: Some(data) });
        proof {
            assert(final(self).pending@.subrange(0, old(self).pending@.len() as int) =~= old(
                self,
            ).pending@);
        }
    }

    /// Drain one pending message, applying its operations in the fixed
    /// order: perspective flag, then normalization range (both written to
    /// the parameter set), then dataset bytes, which are handed back for
    /// the caller to run through the load pipeline.  With nothing pending,
    /// nothing changes.
    pub fn drain_one(&mut self, ps: &mut ParameterSet) -> (load: Option<Vec<u8>>)
        requires
            old(ps).wf(),
        ensures
            final(ps).wf(),
            old(self).pending@.len() == 0 ==> {
                &&& final(self).pending@ == old(self).pending@
                &&& *final(ps) == *old(ps)
                &&& load is None
            },
            old(self).pending@.len() > 0 ==> {
                let msg = old(self).pending@.first();
                &&& final(self).pending@ == old(self).pending@.drop_first()
                &&& final(ps).group_words(Group::Perspective) == (match msg.perspective {
                    Some(on) => perspective_words(on),
                    None => old(ps).group_words(Group::Perspective),
                })
                &&& final(ps).group_words(Group::MinMax) == (match msg.range {
                    Some((low, high)) => range_words(low, high),
                    None => old(ps).group_words(Group::MinMax),
                })
                &&& forall|g: Group|
                    g != Group::Perspective && g != Group::MinMax
                        ==> #[trigger] final(ps).group_words(g) == old(ps).group_words(g)
                &&& load == msg.data
            },
    {
        if self.pending.len() == 0 {
            return None;
        }
        let msg = self.pending.remove(0);
        proof {
            assert(final(self).pending@ =~= old(self).pending@.drop_first());
        }
        if let Some(on) = msg.perspective {
            let words = vec![
                if on {
                    F32_ONE_BITS
                } else {
                    F32_ZERO_BITS
                },
                F32_ZERO_BITS,
                F32_ZERO_BITS,
                F32_ZERO_BITS,
            ];
            proof {
                assert(words@ =~= perspective_words(on));
            }
            ps.write_group(Group::Perspective, &words);
        }
        if let Some((low, high)) = msg.range {
            let words = vec![low, high, F32_ZERO_BITS, F32_ZERO_BITS];
            proof {
                assert(words@ =~= range_words(low, high));
            }
            ps.write_group(Group::MinMax, &words);
        }
        msg.data
    }
}

/// One dataset the viewer knows how to reach, with its known display
/// range when one is recorded.
pub struct CatalogEntry {
    /// Where the shell finds the dataset (a path or URI).
    pub location: String,
    /// The known display range, low and high as binary32 bits.
    pub range: Option<(u32, u32)>,
}

/// The fixed list of known datasets and the index of the one currently
/// shown; the "next dataset" key advances the index cyclically.
pub struct Catalog {
    pub entries: Vec<CatalogEntry>,
    pub index: usize,
}

impl Catalog {
    /// The current index stays inside the list.
    pub open spec fn wf(self) -> bool {
        self.entries@.len() > 0 && self.index < self.entries@.len()
    }

    /// A catalog starting at its first entry.
    pub fn new(entries: Vec<CatalogEntry>) -> (c: Catalog)
        requires
            entries@.len() > 0,
        ensures
            c.wf(),
            c.entries@ == entries@,
            c.index == 0,
    {
        Catalog { entries, index: 0 }
    }

    /// Advance to the next dataset, wrapping at the end of the list, and
    /// return its index.
    pub fn advance(&mut self) -> (i: usize)
        requires
            old(self).wf(),
        ensures
            final(self).wf(),
            final(self).entries@ == old(self).entries@,
            i == final(self).index,
            final(self).index == (old(self).index + 1) % (old(self).entries@.len() as int),
    {
        let n = self.entries.len();
        self.index = if self.index + 1 < n {
            self.index + 1
        } else {
            0
        };
        proof {
            if old(self).index + 1 < n {
                assert((old(self).index + 1) % (n as int) == old(self).index + 1) by {
                    vstd::arithmetic::div_mod::lemma_small_mod(
                        (old(self).index + 1) as nat,
                        n as nat,
                    );
                }
            } else {
                assert(old(self).index + 1 == n);
                assert((old(self).index + 1) % (n as int) == 0) by {
                    vstd::arithmetic::div_mod::lemma_mod_self_0(n as int);
                }
            }
        }
        self.index
    }
}

} // verus!
