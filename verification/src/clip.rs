//! Robust percentile clipping of binary32 samples.
//!
//! `clip` computes a `[low, high]` display range from a buffer of samples by
//! partial order statistics: NaN samples are excluded, percentile ranks are
//! taken against the count of valid samples only, and the two cut values are
//! obtained by in-place selection, reordering the buffer destructively.
//!
//! The specification is built on a canonical sorted sequence: for an input
//! sequence `s` of bit patterns, `sorted_valid(s)` is the sequence of its
//! non-NaN elements sorted by the IEEE-754 total order, and the cuts are
//! elements of that sequence at the percentile ranks.

use vstd::prelude::*;
use vstd::multiset::Multiset;
use vstd::relations::{sorted_by, total_ordering};
use vstd::seq_lib::lemma_sorted_unique;

use crate::fbits::{is_nan32, key32, lemma_key32_injective, nan32, rank32, F32_NAN_BITS, F32_ZERO_BITS};

verus! {

/// Predicate selecting samples that take part in the statistic.
pub open spec fn valid_pred() -> spec_fn(u32) -> bool {
    |b: u32| !is_nan32(b)
}

/// Total order on bit patterns used by the selection: the IEEE-754 total
/// order, expressed through `key32`.
pub open spec fn le_key() -> spec_fn(u32, u32) -> bool {
    |a: u32, b: u32| key32(a) <= key32(b)
}

/// The non-NaN elements of `s`, in input order.
pub open spec fn valid_part(s: Seq<u32>) -> Seq<u32> {
    s.filter(valid_pred())
}

/// The non-NaN elements of `s`, sorted by the IEEE-754 total order.
pub open spec fn sorted_valid(s: Seq<u32>) -> Seq<u32> {
    valid_part(s).sort_by(le_key())
}

/// A percentile argument clamped into `[0, 100]`.
pub open spec fn clamp_pct(p: int) -> int {
    if p < 0 {
        0
    } else if p > 100 {
        100
    } else {
        p
    }
}

/// Rank of the `p`-th percentile among `n` valid samples:
/// `floor(clamp(p) / 100 * n)`, capped at the last valid rank.
pub open spec fn pct_index(p: int, n: int) -> int {
    let i = clamp_pct(p) * n / 100;
    if i > n - 1 {
        n - 1
    } else {
        i
    }
}

/// The value `clip` returns: `(0.0, 0.0)` on an empty buffer, `(NaN, NaN)`
/// when no valid sample remains, and otherwise the elements of the sorted
/// valid sequence at the two percentile ranks, the percentile pair being
/// swapped first if given out of order.
pub open spec fn clip_spec(s: Seq<u32>, low: int, high: int) -> (u32, u32) {
    if s.len() == 0 {
        (F32_ZERO_BITS, F32_ZERO_BITS)
    } else {
        let v = sorted_valid(s);
        if v.len() == 0 {
            (F32_NAN_BITS, F32_NAN_BITS)
        } else {
            let a = clamp_pct(low);
            let b = clamp_pct(high);
            let lo = if a <= b {
                a
            } else {
                b
            };
            let hi = if a <= b {
                b
            } else {
                a
            };
            (v[pct_index(lo, v.len() as int)], v[pct_index(hi, v.len() as int)])
        }
    }
}

/// `le_key` is a total ordering, as `sort_by` requires.
pub proof fn lemma_le_key_total_ordering()
    ensures
        total_ordering(le_key()),
{
    assert forall|a: u32, b: u32| #[trigger] le_key()(a, b) && le_key()(b, a) implies a == b by {
        lemma_key32_injective(a, b);
    }
}

/// Filtering commutes with passing from a sequence to its multiset.
pub proof fn lemma_filter_to_multiset(s: Seq<u32>, p: spec_fn(u32) -> bool)
    ensures
        s.filter(p).to_multiset() == s.to_multiset().filter(p),
    decreases s.len(),
{
    broadcast use vstd::multiset::group_multiset_axioms;
    broadcast use vstd::seq_lib::to_multiset_build;
    broadcast use vstd::seq_lib::to_multiset_len;

    reveal(Seq::filter);
    if s.len() == 0 {
        assert(s.to_multiset() =~= Multiset::<u32>::empty()) by {
            broadcast use vstd::seq_lib::to_multiset_contains;

        }
        assert(s.filter(p).to_multiset() =~= s.to_multiset().filter(p));
    } else {
        let t = s.drop_last();
        let a = s.last();
        lemma_filter_to_multiset(t, p);
        assert(s =~= t.push(a));
        assert(s.to_multiset() =~= t.to_multiset().insert(a));
        if p(a) {
            assert(s.filter(p) =~= t.filter(p).push(a));
            assert(s.filter(p).to_multiset() =~= t.filter(p).to_multiset().insert(a));
        } else {
            assert(s.filter(p) =~= t.filter(p));
        }
        assert(s.to_multiset().filter(p) =~= if p(a) {
            t.to_multiset().filter(p).insert(a)
        } else {
            t.to_multiset().filter(p)
        });
        assert(s.filter(p).to_multiset() =~= s.to_multiset().filter(p));
    }
}

/// Two sequences with the same multiset keep the same number of elements
/// under any filter.
pub proof fn lemma_filter_len_same_multiset(s: Seq<u32>, t: Seq<u32>, p: spec_fn(u32) -> bool)
    requires
        s.to_multiset() == t.to_multiset(),
    ensures
        s.filter(p).len() == t.filter(p).len(),
{
    lemma_filter_to_multiset(s, p);
    lemma_filter_to_multiset(t, p);
    s.filter(p).to_multiset_ensures();
    t.filter(p).to_multiset_ensures();
}

/// If every element from position `m` on fails `p`, at most `m` elements
/// pass the filter.
pub proof fn lemma_filter_len_upper(s: Seq<u32>, p: spec_fn(u32) -> bool, m: int)
    requires
        0 <= m <= s.len(),
        forall|i: int| m <= i < s.len() ==> !p(#[trigger] s[i]),
    ensures
        s.filter(p).len() <= m,
    decreases s.len(),
{
    reveal(Seq::filter);
    if s.len() == 0 {
    } else if m == s.len() {
        s.lemma_filter_len(p);
    } else {
        let t = s.drop_last();
        assert(!p(s[s.len() - 1]));
        assert(forall|i: int| m <= i < t.len() ==> !p(#[trigger] t[i]));
        lemma_filter_len_upper(t, p, m);
    }
}

/// If every element before position `m` passes `p`, at least `m` elements
/// pass the filter.
pub proof fn lemma_filter_len_lower(s: Seq<u32>, p: spec_fn(u32) -> bool, m: int)
    requires
        0 <= m <= s.len(),
        forall|i: int| 0 <= i < m ==> p(#[trigger] s[i]),
    ensures
        s.filter(p).len() >= m,
    decreases s.len(),
{
    reveal(Seq::filter);
    if m == 0 {
    } else if m < s.len() {
        let t = s.drop_last();
        assert(forall|i: int| 0 <= i < m ==> p(#[trigger] t[i]));
        lemma_filter_len_lower(t, p, m);
    } else {
        let t = s.drop_last();
        assert(p(s[s.len() - 1]));
        assert(forall|i: int| 0 <= i < m - 1 ==> p(#[trigger] t[i]));
        lemma_filter_len_lower(t, p, m - 1);
    }
}

/// A position that partitions a sequence (everything before it is no larger,
/// everything after it no smaller) carries the same element as that position
/// of any sorted sequence with the same multiset.
pub proof fn lemma_pivot_position(sorted: Seq<u32>, other: Seq<u32>, k: int)
    requires
        sorted_by(sorted, le_key()),
        sorted.to_multiset() == other.to_multiset(),
        0 <= k < other.len(),
        forall|m: int| 0 <= m < k ==> key32(#[trigger] other[m]) <= key32(other[k]),
        forall|m: int| k < m < other.len() ==> key32(other[k]) <= key32(#[trigger] other[m]),
    ensures
        sorted[k] == other[k],
{
    sorted.to_multiset_ensures();
    other.to_multiset_ensures();
    assert(sorted.len() == other.len());
    let x = other[k];
    let y = sorted[k];
    if y != x {
        if key32(y) == key32(x) {
            lemma_key32_injective(x, y);
        }
        if key32(y) < key32(x) {
            let p = |z: u32| key32(z) < key32(x);
            assert forall|i: int| 0 <= i < k + 1 implies p(#[trigger] sorted[i]) by {
                if i < k {
                    assert(le_key()(sorted[i], sorted[k]));
                }
            }
            lemma_filter_len_lower(sorted, p, k + 1);
            assert forall|i: int| k <= i < other.len() implies !p(#[trigger] other[i]) by {
                if i > k {
                    assert(key32(other[k]) <= key32(other[i]));
                }
            }
            lemma_filter_len_upper(other, p, k);
            lemma_filter_len_same_multiset(sorted, other, p);
            assert(false);
        } else {
            let p = |z: u32| key32(z) <= key32(x);
            assert forall|i: int| 0 <= i < k + 1 implies p(#[trigger] other[i]) by {
                if i < k {
                    assert(key32(other[i]) <= key32(other[k]));
                }
            }
            lemma_filter_len_lower(other, p, k + 1);
            assert forall|i: int| k <= i < sorted.len() implies !p(#[trigger] sorted[i]) by {
                if i > k {
                    assert(le_key()(sorted[k], sorted[i]));
                }
            }
            lemma_filter_len_upper(sorted, p, k);
            lemma_filter_len_same_multiset(sorted, other, p);
            assert(false);
        }
    }
}

/// The percentile rank lies inside the valid range.
pub proof fn lemma_pct_index_bounds(p: int, n: int)
    requires
        n >= 1,
    ensures
        0 <= pct_index(p, n) < n,
{
    let c = clamp_pct(p);
    assert(c * n >= 0) by (nonlinear_arith)
        requires
            0 <= c,
            0 <= n,
    ;
    assert(c * n / 100 >= 0) by (nonlinear_arith)
        requires
            c * n >= 0,
    ;
}

/// Percentile ranks are monotone in the percentile.
pub proof fn lemma_pct_index_monotone(p: int, q: int, n: int)
    requires
        n >= 1,
        p <= q,
    ensures
        pct_index(p, n) <= pct_index(q, n),
{
    let a = clamp_pct(p);
    let b = clamp_pct(q);
    assert(a <= b);
    assert(a * n <= b * n) by (nonlinear_arith)
        requires
            a <= b,
            n >= 0,
    ;
    assert(a * n / 100 <= b * n / 100) by (nonlinear_arith)
        requires
            a * n <= b * n,
    ;
}

/// Passing from sequences to multisets turns concatenation into multiset sum.
proof fn lemma_to_multiset_distributes_over_add(s1: Seq<u32>, s2: Seq<u32>)
    ensures
        (s1 + s2).to_multiset() == s1.to_multiset().add(s2.to_multiset()),
    decreases s2.len(),
{
    broadcast use vstd::multiset::group_multiset_axioms;
    broadcast use vstd::seq_lib::group_to_multiset_ensures;

    if s2.len() == 0 {
        assert(s1 + s2 =~= s1);
        assert(s2.to_multiset() =~= Multiset::<u32>::empty());
        assert((s1 + s2).to_multiset() =~= s1.to_multiset().add(s2.to_multiset()));
    } else {
        let t = s2.drop_last();
        let a = s2.last();
        lemma_to_multiset_distributes_over_add(s1, t);
        assert(s2 =~= t.push(a));
        assert(s1 + s2 =~= (s1 + t).push(a));
        assert((s1 + s2).to_multiset() =~= (s1 + t).to_multiset().insert(a));
        assert(s2.to_multiset() =~= t.to_multiset().insert(a));
        assert((s1 + s2).to_multiset() =~= s1.to_multiset().add(s2.to_multiset()));
    }
}

/// Swapping two elements of a sequence keeps its multiset.
proof fn lemma_swap_multiset(s: Seq<u32>, i: int, j: int)
    requires
        0 <= i < s.len(),
        0 <= j < s.len(),
    ensures
        s.update(i, s[j]).update(j, s[i]).to_multiset() == s.to_multiset(),
{
    broadcast use vstd::multiset::group_multiset_axioms;
    broadcast use vstd::seq_lib::group_to_multiset_ensures;
    broadcast use vstd::seq_lib::to_multiset_update;

    let t = s.update(i, s[j]);
    let u = t.update(j, s[i]);
    assert(s.contains(s[i]));
    assert(s.contains(s[j]));
    assert(t.contains(t[j]));
    assert(t.to_multiset() == s.to_multiset().insert(s[j]).remove(s[i]));
    assert(u.to_multiset() == t.to_multiset().insert(s[i]).remove(t[j]));
    if i == j {
        assert(u.to_multiset() =~= s.to_multiset());
    } else {
        assert(t[j] == s[j]);
        assert(u.to_multiset() =~= s.to_multiset());
    }
}

/// Two sequences of the same length that agree outside a window and whose
/// windows hold the same multiset hold the same multiset overall.
proof fn lemma_patch_multiset(s: Seq<u32>, t: Seq<u32>, a: int, b: int)
    requires
        s.len() == t.len(),
        0 <= a <= b <= s.len(),
        forall|m: int| 0 <= m < a || b <= m < s.len() ==> s[m] == #[trigger] t[m],
        s.subrange(a, b).to_multiset() == t.subrange(a, b).to_multiset(),
    ensures
        s.to_multiset() == t.to_multiset(),
{
    broadcast use vstd::multiset::group_multiset_axioms;

    let n = s.len() as int;
    assert(s =~= s.subrange(0, a) + s.subrange(a, b) + s.subrange(b, n));
    assert(t =~= t.subrange(0, a) + t.subrange(a, b) + t.subrange(b, n));
    assert(s.subrange(0, a) =~= t.subrange(0, a));
    assert(s.subrange(b, n) =~= t.subrange(b, n));
    lemma_to_multiset_distributes_over_add(s.subrange(0, a), s.subrange(a, b));
    lemma_to_multiset_distributes_over_add(s.subrange(0, a) + s.subrange(a, b), s.subrange(b, n));
    lemma_to_multiset_distributes_over_add(t.subrange(0, a), t.subrange(a, b));
    lemma_to_multiset_distributes_over_add(t.subrange(0, a) + t.subrange(a, b), t.subrange(b, n));
    assert(s.to_multiset() =~= t.to_multiset());
}

/// Every element of a sequence satisfies any predicate that all elements of
/// a multiset-equal sequence satisfy.
proof fn lemma_pred_preserved(s: Seq<u32>, t: Seq<u32>, p: spec_fn(u32) -> bool)
    requires
        s.to_multiset() == t.to_multiset(),
        forall|m: int| 0 <= m < s.len() ==> p(#[trigger] s[m]),
    ensures
        forall|m: int| 0 <= m < t.len() ==> p(#[trigger] t[m]),
{
    broadcast use vstd::seq_lib::group_to_multiset_ensures;

    assert forall|m: int| 0 <= m < t.len() implies p(#[trigger] t[m]) by {
        assert(t.contains(t[m]));
        assert(t.to_multiset().count(t[m]) > 0);
        assert(s.contains(t[m]));
        let w = choose|w: int| 0 <= w < s.len() && s[w] == t[m];
        assert(p(s[w]));
    }
}

/// In a sequence whose window `[0, v)` holds only elements passing `p` and
/// whose tail holds only elements failing it, the elements passing `p` are
/// exactly the window.
proof fn lemma_split_filter_multiset(s: Seq<u32>, v: int, p: spec_fn(u32) -> bool)
    requires
        0 <= v <= s.len(),
        forall|m: int| 0 <= m < v ==> p(#[trigger] s[m]),
        forall|m: int| v <= m < s.len() ==> !p(#[trigger] s[m]),
    ensures
        s.to_multiset().filter(p) == s.subrange(0, v).to_multiset(),
{
    broadcast use vstd::multiset::group_multiset_axioms;
    broadcast use vstd::seq_lib::group_to_multiset_ensures;

    let pre = s.subrange(0, v);
    let post = s.subrange(v, s.len() as int);
    assert(s =~= pre + post);
    lemma_to_multiset_distributes_over_add(pre, post);
    assert forall|x: u32| true implies s.to_multiset().filter(p).count(x)
        == pre.to_multiset().count(x) by {
        if pre.to_multiset().count(x) > 0 {
            assert(pre.contains(x));
            let w = choose|w: int| 0 <= w < pre.len() && pre[w] == x;
            assert(p(pre[w]));
        }
        if post.to_multiset().count(x) > 0 {
            assert(post.contains(x));
            let w = choose|w: int| 0 <= w < post.len() && post[w] == x;
            assert(!p(post[w]));
        }
        if p(x) {
            assert(post.to_multiset().count(x) == 0);
        } else {
            assert(pre.to_multiset().count(x) == 0);
        }
    }
    assert(s.to_multiset().filter(p) =~= pre.to_multiset());
}

/// Swap two elements of the buffer in place.
fn swap_elems(v: &mut Vec<u32>, i: usize, j: usize)
    requires
        i < old(v).len(),
        j < old(v).len(),
    ensures
        final(v)@ == old(v)@.update(i as int, old(v)@[j as int]).update(j as int, old(v)@[i as int]),
{
    let a = v[i];
    let b = v[j];
    v.set(i, b);
    v.set(j, a);
}

/// Reorder the buffer so that all non-NaN samples form a prefix, returning
/// the length of that prefix.
fn partition_valid(v: &mut Vec<u32>) -> (valid: usize)
    ensures
        final(v).len() == old(v).len(),
        final(v)@.to_multiset() == old(v)@.to_multiset(),
        valid <= final(v).len(),
        forall|m: int| 0 <= m < valid ==> !is_nan32(#[trigger] final(v)@[m]),
        forall|m: int| valid <= m < final(v).len() ==> is_nan32(#[trigger] final(v)@[m]),
{
    let mut j: usize = 0;
    let mut i: usize = 0;
    let n = v.len();
    while i < n
        invariant
            j <= i <= n == v.len(),
            v@.to_multiset() == old(v)@.to_multiset(),
            forall|m: int| 0 <= m < j ==> !is_nan32(#[trigger] v@[m]),
            forall|m: int| j <= m < i ==> is_nan32(#[trigger] v@[m]),
        decreases n - i,
    {
        if !nan32(v[i]) {
            proof {
                lemma_swap_multiset(v@, i as int, j as int);
            }
            swap_elems(v, i, j);
            j = j + 1;
        }
        i = i + 1;
    }
    j
}

/// Order the window `[lo, hi)` of the buffer around a pivot: afterwards some
/// position `p` holds the pivot, everything before it in the window ranks
/// strictly below it and everything after it ranks no lower.
fn partition_range(v: &mut Vec<u32>, lo: usize, hi: usize) -> (p: usize)
    requires
        lo < hi <= old(v).len(),
    ensures
        lo <= p < hi,
        final(v).len() == old(v).len(),
        forall|m: int|
            0 <= m < lo || hi <= m < old(v).len() ==> #[trigger] final(v)@[m] == old(v)@[m],
        final(v)@.subrange(lo as int, hi as int).to_multiset() == old(v)@.subrange(
            lo as int,
            hi as int,
        ).to_multiset(),
        forall|m: int| lo <= m < p ==> key32(#[trigger] final(v)@[m]) < key32(final(v)@[p as int]),
        forall|m: int|
            p < m < hi ==> key32(final(v)@[p as int]) <= key32(#[trigger] final(v)@[m]),
{
    let ghost orig = v@;
    let mid = lo + (hi - lo) / 2;
    proof {
        lemma_swap_in_window(v@, lo as int, hi as int, lo as int, mid as int);
    }
    swap_elems(v, lo, mid);
    let pivot = v[lo];
    let pivot_rank = rank32(pivot);
    let mut store: usize = lo + 1;
    let mut i: usize = lo + 1;
    while i < hi
        invariant
            lo + 1 <= store <= i <= hi <= v.len() == orig.len(),
            forall|m: int| 0 <= m < lo || hi <= m < orig.len() ==> #[trigger] v@[m] == orig[m],
            v@.subrange(lo as int, hi as int).to_multiset() == orig.subrange(
                lo as int,
                hi as int,
            ).to_multiset(),
            v@[lo as int] == pivot,
            pivot_rank == key32(pivot),
            forall|m: int| lo < m < store ==> key32(#[trigger] v@[m]) < key32(pivot),
            forall|m: int| store <= m < i ==> key32(pivot) <= key32(#[trigger] v@[m]),
        decreases hi - i,
    {
        if rank32(v[i]) < pivot_rank {
            proof {
                lemma_swap_in_window(v@, lo as int, hi as int, i as int, store as int);
            }
            swap_elems(v, i, store);
            store = store + 1;
        }
        i = i + 1;
    }
    proof {
        lemma_swap_in_window(v@, lo as int, hi as int, lo as int, (store - 1) as int);
    }
    swap_elems(v, lo, store - 1);
    store - 1
}

/// Select the element of rank `k` inside the window `[lo, hi)`: afterwards
/// position `k` holds it, ranked between everything before and after it in
/// the window.
fn select_rank(v: &mut Vec<u32>, lo: usize, hi: usize, k: usize) -> (r: u32)
    requires
        lo <= k < hi <= old(v).len(),
    ensures
        final(v).len() == old(v).len(),
        forall|m: int|
            0 <= m < lo || hi <= m < old(v).len() ==> #[trigger] final(v)@[m] == old(v)@[m],
        final(v)@.subrange(lo as int, hi as int).to_multiset() == old(v)@.subrange(
            lo as int,
            hi as int,
        ).to_multiset(),
        r == final(v)@[k as int],
        forall|m: int| lo <= m < k ==> key32(#[trigger] final(v)@[m]) <= key32(r),
        forall|m: int| k < m < hi ==> key32(r) <= key32(#[trigger] final(v)@[m]),
    decreases hi - lo,
{
    let ghost orig = v@;
    let p = partition_range(v, lo, hi);
    let ghost mid = v@;
    if k == p {
        v[p]
    } else if k < p {
        let r = select_rank(v, lo, p, k);
        proof {
            lemma_select_step_left(orig, mid, v@, lo as int, p as int, hi as int, k as int);
        }
        r
    } else {
        let r = select_rank(v, p + 1, hi, k);
        proof {
            lemma_select_step_right(orig, mid, v@, lo as int, p as int, hi as int, k as int);
        }
        r
    }
}

/// After partitioning `[lo, hi)` around position `p` and selecting rank `k`
/// inside `[lo, p)`, position `k` still ranks below the rest of the window,
/// and the window's multiset is unchanged.
proof fn lemma_select_step_left(orig: Seq<u32>, mid: Seq<u32>, fin: Seq<u32>, lo: int, p: int, hi: int, k: int)
    requires
        orig.len() == mid.len() == fin.len(),
        0 <= lo <= k < p < hi <= orig.len(),
        // what partitioning established
        forall|m: int| 0 <= m < lo || hi <= m < orig.len() ==> #[trigger] mid[m] == orig[m],
        mid.subrange(lo, hi).to_multiset() == orig.subrange(lo, hi).to_multiset(),
        forall|m: int| lo <= m < p ==> key32(#[trigger] mid[m]) < key32(mid[p]),
        forall|m: int| p < m < hi ==> key32(mid[p]) <= key32(#[trigger] mid[m]),
        // what the nested selection established
        forall|m: int| 0 <= m < lo || p <= m < mid.len() ==> #[trigger] fin[m] == mid[m],
        fin.subrange(lo, p).to_multiset() == mid.subrange(lo, p).to_multiset(),
        forall|m: int| lo <= m < k ==> key32(#[trigger] fin[m]) <= key32(fin[k]),
        forall|m: int| k < m < p ==> key32(fin[k]) <= key32(#[trigger] fin[m]),
    ensures
        fin.subrange(lo, hi).to_multiset() == orig.subrange(lo, hi).to_multiset(),
        forall|m: int| 0 <= m < lo || hi <= m < orig.len() ==> #[trigger] fin[m] == orig[m],
        forall|m: int| lo <= m < k ==> key32(#[trigger] fin[m]) <= key32(fin[k]),
        forall|m: int| k < m < hi ==> key32(fin[k]) <= key32(#[trigger] fin[m]),
{
    let sub_mid = mid.subrange(lo, hi);
    let sub_fin = fin.subrange(lo, hi);
    assert(sub_fin.subrange(0, p - lo) =~= fin.subrange(lo, p));
    assert(sub_mid.subrange(0, p - lo) =~= mid.subrange(lo, p));
    assert forall|m: int|
        0 <= m < 0 || p - lo <= m < sub_mid.len() implies #[trigger] sub_fin[m] == sub_mid[m] by {
        assert(fin[lo + m] == mid[lo + m]);
    }
    lemma_patch_multiset(sub_fin, sub_mid, 0, p - lo);
    // every element of the reordered left part still ranks strictly below the pivot
    lemma_pred_preserved(
        mid.subrange(lo, p),
        fin.subrange(lo, p),
        |z: u32| key32(z) < key32(mid[p]),
    );
    assert forall|m: int| k < m < hi implies key32(fin[k]) <= key32(#[trigger] fin[m]) by {
        assert(key32(fin.subrange(lo, p)[k - lo]) < key32(mid[p]));
        if m >= p {
            assert(fin[m] == mid[m]);
        } else {
            assert(key32(fin[k]) <= key32(fin[m]));
        }
    }
}

/// Mirror image of `lemma_select_step_left` for a selection inside
/// `(p, hi)`.
proof fn lemma_select_step_right(orig: Seq<u32>, mid: Seq<u32>, fin: Seq<u32>, lo: int, p: int, hi: int, k: int)
    requires
        orig.len() == mid.len() == fin.len(),
        0 <= lo <= p < k < hi <= orig.len(),
        forall|m: int| 0 <= m < lo || hi <= m < orig.len() ==> #[trigger] mid[m] == orig[m],
        mid.subrange(lo, hi).to_multiset() == orig.subrange(lo, hi).to_multiset(),
        forall|m: int| lo <= m < p ==> key32(#[trigger] mid[m]) < key32(mid[p]),
        forall|m: int| p < m < hi ==> key32(mid[p]) <= key32(#[trigger] mid[m]),
        forall|m: int| 0 <= m < p + 1 || hi <= m < mid.len() ==> #[trigger] fin[m] == mid[m],
        fin.subrange(p + 1, hi).to_multiset() == mid.subrange(p + 1, hi).to_multiset(),
        forall|m: int| p + 1 <= m < k ==> key32(#[trigger] fin[m]) <= key32(fin[k]),
        forall|m: int| k < m < hi ==> key32(fin[k]) <= key32(#[trigger] fin[m]),
    ensures
        fin.subrange(lo, hi).to_multiset() == orig.subrange(lo, hi).to_multiset(),
        forall|m: int| 0 <= m < lo || hi <= m < orig.len() ==> #[trigger] fin[m] == orig[m],
        forall|m: int| lo <= m < k ==> key32(#[trigger] fin[m]) <= key32(fin[k]),
        forall|m: int| k < m < hi ==> key32(fin[k]) <= key32(#[trigger] fin[m]),
{
    let sub_mid = mid.subrange(lo, hi);
    let sub_fin = fin.subrange(lo, hi);
    assert(sub_fin.subrange(p + 1 - lo, hi - lo) =~= fin.subrange(p + 1, hi));
    assert(sub_mid.subrange(p + 1 - lo, hi - lo) =~= mid.subrange(p + 1, hi));
    assert forall|m: int|
        0 <= m < p + 1 - lo || hi - lo <= m < sub_mid.len() implies #[trigger] sub_fin[m]
        == sub_mid[m] by {
        assert(fin[lo + m] == mid[lo + m]);
    }
    lemma_patch_multiset(sub_fin, sub_mid, p + 1 - lo, hi - lo);
    // every element of the reordered right part still ranks no lower than the pivot
    lemma_pred_preserved(
        mid.subrange(p + 1, hi),
        fin.subrange(p + 1, hi),
        |z: u32| key32(mid[p]) <= key32(z),
    );
    assert(key32(fin.subrange(p + 1, hi)[k - p - 1]) >= key32(mid[p]));
    assert forall|m: int| lo <= m < k implies key32(#[trigger] fin[m]) <= key32(fin[k]) by {
        if m < p {
            assert(fin[m] == mid[m]);
            assert(key32(mid[m]) < key32(mid[p]));
        } else if m == p {
            assert(fin[m] == mid[p]);
        } else {
            assert(key32(fin[m]) <= key32(fin[k]));
        }
    }
}

/// A percentile argument clamped into `[0, 100]`, executably.
fn clamp100(p: i64) -> (c: u64)
    ensures
        c as int == clamp_pct(p as int),
        c <= 100,
{
    if p < 0 {
        0
    } else if p > 100 {
        100
    } else {
        p as u64
    }
}

/// The rank of the `c`-th percentile among `n` valid samples, executably.
fn rank_of_pct(c: u64, n: usize) -> (i: usize)
    requires
        c <= 100,
        n >= 1,
    ensures
        i as int == pct_index(c as int, n as int),
        i < n,
{
    proof {
        assert((c as int) * (n as int) <= 100 * (usize::MAX as int)) by (nonlinear_arith)
            requires
                0 <= c <= 100,
                0 <= n <= usize::MAX,
        ;
    }
    let prod: u128 = (c as u128) * (n as u128);
    let idx: u128 = prod / 100;
    let cap: u128 = (n - 1) as u128;
    let r: u128 = if idx > cap {
        cap
    } else {
        idx
    };
    proof {
        lemma_pct_index_bounds(c as int, n as int);
        assert(clamp_pct(c as int) == c as int);
    }
    r as usize
}

/// Compute a robust `[low, high]` intensity range over a sample buffer by
/// percentile selection, excluding NaN samples.
///
/// The buffer is reordered destructively (its multiset of bit patterns is
/// preserved); callers that still need the original order must pass a copy.
/// An empty buffer yields the bits of `(0.0, 0.0)`; a buffer with no valid
/// sample yields `(NaN, NaN)`; otherwise both cuts are valid samples from
/// the buffer, at the requested percentile ranks of the sorted valid part.
pub fn clip(samples: &mut Vec<u32>, low_pct: i64, high_pct: i64) -> (r: (u32, u32))
    ensures
        final(samples).len() == old(samples).len(),
        final(samples)@.to_multiset() == old(samples)@.to_multiset(),
        r == clip_spec(old(samples)@, low_pct as int, high_pct as int),
{
    let ghost orig = samples@;
    let n = samples.len();
    if n == 0 {
        return (F32_ZERO_BITS, F32_ZERO_BITS);
    }
    let valid = partition_valid(samples);
    let ghost parted = samples@;
    proof {
        lemma_le_key_total_ordering();
        valid_part(orig).lemma_sort_by_ensures(le_key());
        lemma_filter_to_multiset(orig, valid_pred());
        lemma_split_filter_multiset(parted, valid as int, valid_pred());
        valid_part(orig).to_multiset_ensures();
        parted.subrange(0, valid as int).to_multiset_ensures();
        sorted_valid(orig).to_multiset_ensures();
        assert(valid_part(orig).to_multiset() == parted.subrange(0, valid as int).to_multiset());
        assert(sorted_valid(orig).len() == valid);
    }
    if valid == 0 {
        return (F32_NAN_BITS, F32_NAN_BITS);
    }
    let ca = clamp100(low_pct);
    let cb = clamp100(high_pct);
    let cl = if ca <= cb {
        ca
    } else {
        cb
    };
    let ch = if ca <= cb {
        cb
    } else {
        ca
    };
    let rank_lo = rank_of_pct(cl, valid);
    let rank_hi = rank_of_pct(ch, valid);
    let lo_bits = select_rank(samples, 0, valid, rank_lo);
    proof {
        lemma_pivot_position(sorted_valid(orig), samples@.subrange(0, valid as int), rank_lo as int);
        lemma_patch_multiset(samples@, parted, 0, valid as int);
    }
    let ghost after_first = samples@;
    let hi_bits = select_rank(samples, 0, valid, rank_hi);
    proof {
        lemma_pivot_position(sorted_valid(orig), samples@.subrange(0, valid as int), rank_hi as int);
        lemma_patch_multiset(samples@, after_first, 0, valid as int);
    }
    (lo_bits, hi_bits)
}

/// Law: on a non-empty buffer without NaN samples, `clip(s, p, 100 - p)`
/// with `p <= 50` yields cuts that are both members of the buffer, with the
/// low cut ranking no higher than the high cut in the IEEE-754 total order.
pub proof fn lemma_clip_low_le_high(s: Seq<u32>, p: int)
    requires
        s.len() > 0,
        forall|i: int| 0 <= i < s.len() ==> !is_nan32(#[trigger] s[i]),
        p <= 50,
    ensures
        s.contains(clip_spec(s, p, 100 - p).0),
        s.contains(clip_spec(s, p, 100 - p).1),
        key32(clip_spec(s, p, 100 - p).0) <= key32(clip_spec(s, p, 100 - p).1),
{
    broadcast use vstd::multiset::group_multiset_axioms;

    lemma_le_key_total_ordering();
    valid_part(s).lemma_sort_by_ensures(le_key());
    lemma_filter_to_multiset(s, valid_pred());
    lemma_filter_len_lower(s, valid_pred(), s.len() as int);
    s.lemma_filter_len(valid_pred());
    let v = sorted_valid(s);
    valid_part(s).to_multiset_ensures();
    v.to_multiset_ensures();
    s.to_multiset_ensures();
    assert(v.len() == valid_part(s).len());
    assert(v.len() == s.len());
    let a = clamp_pct(p);
    let b = clamp_pct(100 - p);
    assert(a <= b);
    let n = v.len() as int;
    lemma_pct_index_bounds(a, n);
    lemma_pct_index_bounds(b, n);
    lemma_pct_index_monotone(a, b, n);
    let ri = pct_index(a, n);
    let rj = pct_index(b, n);
    assert forall|idx: int| 0 <= idx < n implies s.contains(#[trigger] v[idx]) by {
        assert(v.contains(v[idx]));
        assert(v.to_multiset().count(v[idx]) > 0);
        assert(s.to_multiset().filter(valid_pred()).count(v[idx]) > 0);
        assert(s.to_multiset().count(v[idx]) > 0);
    }
    if ri < rj {
        assert(le_key()(v[ri], v[rj]));
    }
}

/// Law: on a non-empty buffer of NaN samples alone, every percentile pair
/// yields the NaN cut pair; on an empty buffer, the zero pair.
pub proof fn lemma_clip_no_valid_samples(s: Seq<u32>, p: int, q: int)
    ensures
        s.len() == 0 ==> clip_spec(s, p, q) == (F32_ZERO_BITS, F32_ZERO_BITS),
        s.len() > 0 && (forall|i: int| 0 <= i < s.len() ==> is_nan32(#[trigger] s[i]))
            ==> clip_spec(s, p, q) == (F32_NAN_BITS, F32_NAN_BITS),
{
    if s.len() > 0 && (forall|i: int| 0 <= i < s.len() ==> is_nan32(#[trigger] s[i])) {
        lemma_le_key_total_ordering();
        lemma_filter_len_upper(s, valid_pred(), 0);
        valid_part(s).lemma_sort_by_ensures(le_key());
        valid_part(s).to_multiset_ensures();
        sorted_valid(s).to_multiset_ensures();
        assert(sorted_valid(s).len() == 0);
    }
}

/// Law: the percentile pair is order-tolerant; giving the two percentiles in
/// either order yields the same cuts.
pub proof fn lemma_clip_swap_tolerance(s: Seq<u32>, p: int, q: int)
    ensures
        clip_spec(s, p, q) == clip_spec(s, q, p),
{
}

/// Law: the cuts depend only on the multiset of samples, not on their order:
/// the selection may reorder equal inputs arbitrarily, yet two buffers
/// holding the same samples yield the same value.
pub proof fn lemma_clip_deterministic(s: Seq<u32>, t: Seq<u32>, p: int, q: int)
    requires
        s.to_multiset() == t.to_multiset(),
    ensures
        clip_spec(s, p, q) == clip_spec(t, p, q),
{
    lemma_le_key_total_ordering();
    lemma_filter_to_multiset(s, valid_pred());
    lemma_filter_to_multiset(t, valid_pred());
    valid_part(s).lemma_sort_by_ensures(le_key());
    valid_part(t).lemma_sort_by_ensures(le_key());
    s.to_multiset_ensures();
    t.to_multiset_ensures();
    lemma_sorted_unique(sorted_valid(s), sorted_valid(t), le_key());
    assert(sorted_valid(s) == sorted_valid(t));
}

/// A swap inside a window keeps the window's multiset and everything outside
/// the window.
proof fn lemma_swap_in_window(s: Seq<u32>, lo: int, hi: int, i: int, j: int)
    requires
        0 <= lo <= i < hi <= s.len(),
        lo <= j < hi,
    ensures
        ({
            let t = s.update(i, s[j]).update(j, s[i]);
            &&& t.subrange(lo, hi).to_multiset() == s.subrange(lo, hi).to_multiset()
            &&& t.len() == s.len()
            &&& forall|m: int| 0 <= m < lo || hi <= m < s.len() ==> #[trigger] t[m] == s[m]
        }),
{
    let t = s.update(i, s[j]).update(j, s[i]);
    let sub = s.subrange(lo, hi);
    assert(t.subrange(lo, hi) =~= sub.update(i - lo, sub[j - lo]).update(j - lo, sub[i - lo]));
    lemma_swap_multiset(sub, i - lo, j - lo);
}

} // verus!
