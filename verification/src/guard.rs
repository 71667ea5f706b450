//! A verified size guard over raw container header bytes.
//!
//! The parser computes the byte size of a unit's data block as the sample
//! width times the product of every declared axis, in 64-bit arithmetic;
//! a crafted header declaring huge axes overflows that product, which is
//! a panic in overflow-checked builds.  Before any byte stream is handed
//! to the parser, this guard scans the 80-byte keyword records of its
//! first header — mirroring how the parser reads `NAXIS` and `NAXIS<n>`
//! cards, including records written in the big-keyword convention and the
//! rule that the last occurrence of a keyword wins — and accepts the
//! stream only when the declared sizes provably keep that product within
//! 64 bits.
//!
//! The guard is conservative in one direction only: a stream it rejects
//! because an axis record is malformed, duplicated-and-malformed, or
//! declares an unbounded size is a stream the pipeline reports as not a
//! cube; every stream it accepts is safe to parse.

use vstd::prelude::*;

verus! {

/// The byte values the parser strips around keywords and values (ASCII
/// whitespace: space, tab, line feed, form feed, carriage return).
pub open spec fn blank(c: u8) -> bool {
    c == 32 || c == 9 || c == 10 || c == 12 || c == 13
}

/// First position in `[i, end)` holding a non-blank byte, or `end`.
pub open spec fn skip_blank(b: Seq<u8>, i: int, end: int) -> int
    decreases end - i,
{
    if i >= end {
        end
    } else if blank(b[i]) {
        skip_blank(b, i + 1, end)
    } else {
        i
    }
}

/// Position after the last non-blank byte of `[i, end)`, at least `i`.
pub open spec fn drop_blank(b: Seq<u8>, i: int, end: int) -> int
    decreases end - i,
{
    if end <= i {
        i
    } else if blank(b[end - 1]) {
        drop_blank(b, i, end - 1)
    } else {
        end
    }
}

/// First position of byte `x` in `[i, end)`, or `end`.
pub open spec fn find_byte(b: Seq<u8>, i: int, end: int, x: u8) -> int
    decreases end - i,
{
    if i >= end {
        end
    } else if b[i] == x {
        i
    } else {
        find_byte(b, i + 1, end, x)
    }
}

/// First position in `[i, end)` holding a blank byte, or `end`.
pub open spec fn skip_nonblank(b: Seq<u8>, i: int, end: int) -> int
    decreases end - i,
{
    if i >= end {
        end
    } else if !blank(b[i]) {
        skip_nonblank(b, i + 1, end)
    } else {
        i
    }
}

/// First position in `[i, end)` holding a byte other than ASCII `0`, or
/// `end`.
pub open spec fn skip_zeros(b: Seq<u8>, i: int, end: int) -> int
    decreases end - i,
{
    if i >= end {
        end
    } else if b[i] == 48 {
        skip_zeros(b, i + 1, end)
    } else {
        i
    }
}

/// Every byte of `[i, j)` is an ASCII decimal digit.
pub open spec fn all_digits(b: Seq<u8>, i: int, j: int) -> bool {
    forall|m: int| i <= m < j ==> 48 <= #[trigger] b[m] <= 57
}

/// Value of the decimal numeral in `[i, j)`, most significant digit
/// first.
pub open spec fn digits_val(b: Seq<u8>, i: int, j: int) -> int
    decreases j - i,
{
    if j <= i {
        0
    } else {
        digits_val(b, i, j - 1) * 10 + (b[j - 1] - 48)
    }
}

/// The value of a digit string is below ten to its length.
pub proof fn lemma_digits_val_bound(b: Seq<u8>, i: int, j: int)
    requires
        i <= j,
        all_digits(b, i, j),
    ensures
        0 <= digits_val(b, i, j),
        digits_val(b, i, j) < pow10((j - i) as nat),
    decreases j - i,
{
    if j <= i {
    } else {
        lemma_digits_val_bound(b, i, j - 1);
        assert(digits_val(b, i, j - 1) <= pow10((j - i - 1) as nat) - 1);
        assert(digits_val(b, i, j - 1) * 10 <= (pow10((j - i - 1) as nat) - 1) * 10)
            by (nonlinear_arith)
            requires
                digits_val(b, i, j - 1) <= pow10((j - i - 1) as nat) - 1,
        ;
    }
}

/// Ten to the `n`-th power.
pub open spec fn pow10(n: nat) -> int
    decreases n,
{
    if n == 0 {
        1
    } else {
        10 * pow10((n - 1) as nat)
    }
}

fn blank_at(b: &[u8], i: usize) -> (r: bool)
    requires
        i < b@.len(),
    ensures
        r == blank(b@[i as int]),
{
    let c = b[i];
    c == 32 || c == 9 || c == 10 || c == 12 || c == 13
}

fn skip_blank_e(b: &[u8], i: usize, end: usize) -> (r: usize)
    requires
        i <= end <= b@.len(),
    ensures
        r == skip_blank(b@, i as int, end as int),
        i <= r <= end,
{
    let mut j: usize = i;
    while j < end && blank_at(b, j)
        invariant
            i <= j <= end <= b@.len(),
            skip_blank(b@, i as int, end as int) == skip_blank(b@, j as int, end as int),
        decreases end - j,
    {
        j = j + 1;
    }
    proof {
        assert(skip_blank(b@, j as int, end as int) == j);
    }
    j
}

fn drop_blank_e(b: &[u8], i: usize, end: usize) -> (r: usize)
    requires
        i <= end <= b@.len(),
    ensures
        r == drop_blank(b@, i as int, end as int),
        i <= r <= end,
{
    let mut j: usize = end;
    while j > i && blank_at(b, j - 1)
        invariant
            i <= j <= end <= b@.len(),
            drop_blank(b@, i as int, end as int) == drop_blank(b@, i as int, j as int),
        decreases j,
    {
        j = j - 1;
    }
    proof {
        assert(drop_blank(b@, i as int, j as int) == j);
    }
    j
}

fn find_byte_e(b: &[u8], i: usize, end: usize, x: u8) -> (r: usize)
    requires
        i <= end <= b@.len(),
    ensures
        r == find_byte(b@, i as int, end as int, x),
        i <= r <= end,
{
    let mut j: usize = i;
    while j < end && b[j] != x
        invariant
            i <= j <= end <= b@.len(),
            find_byte(b@, i as int, end as int, x) == find_byte(b@, j as int, end as int, x),
        decreases end - j,
    {
        j = j + 1;
    }
    proof {
        assert(find_byte(b@, j as int, end as int, x) == j);
    }
    j
}

fn skip_nonblank_e(b: &[u8], i: usize, end: usize) -> (r: usize)
    requires
        i <= end <= b@.len(),
    ensures
        r == skip_nonblank(b@, i as int, end as int),
        i <= r <= end,
{
    let mut j: usize = i;
    while j < end && !blank_at(b, j)
        invariant
            i <= j <= end <= b@.len(),
            skip_nonblank(b@, i as int, end as int) == skip_nonblank(b@, j as int, end as int),
        decreases end - j,
    {
        j = j + 1;
    }
    proof {
        assert(skip_nonblank(b@, j as int, end as int) == j);
    }
    j
}

fn skip_zeros_e(b: &[u8], i: usize, end: usize) -> (r: usize)
    requires
        i <= end <= b@.len(),
    ensures
        r == skip_zeros(b@, i as int, end as int),
        i <= r <= end,
{
    let mut j: usize = i;
    while j < end && b[j] == 48
        invariant
            i <= j <= end <= b@.len(),
            skip_zeros(b@, i as int, end as int) == skip_zeros(b@, j as int, end as int),
        decreases end - j,
    {
        j = j + 1;
    }
    proof {
        assert(skip_zeros(b@, j as int, end as int) == j);
    }
    j
}

fn all_digits_e(b: &[u8], i: usize, j: usize) -> (r: bool)
    requires
        i <= j <= b@.len(),
    ensures
        r == all_digits(b@, i as int, j as int),
{
    let mut m: usize = i;
    while m < j
        invariant
            i <= m <= j <= b@.len(),
            forall|k: int| i <= k < m ==> 48 <= #[trigger] b@[k] <= 57,
        decreases j - m,
    {
        let c = b[m];
        if !(48 <= c && c <= 57) {
            return false;
        }
        m = m + 1;
    }
    true
}

fn digits_val_e(b: &[u8], i: usize, j: usize) -> (r: u64)
    requires
        i <= j <= b@.len(),
        j - i <= 19,
        all_digits(b@, i as int, j as int),
    ensures
        r == digits_val(b@, i as int, j as int),
{
    proof {
        lemma_digits_val_bound(b@, i as int, j as int);
        assert(pow10(19) == 10_000_000_000_000_000_000) by {
            reveal_with_fuel(pow10, 20);
        }
        lemma_pow10_monotone((j - i) as nat, 19);
    }
    let mut acc: u64 = 0;
    let mut m: usize = i;
    while m < j
        invariant
            i <= m <= j <= b@.len(),
            j - i <= 19,
            all_digits(b@, i as int, j as int),
            acc == digits_val(b@, i as int, m as int),
        decreases j - m,
    {
        proof {
            lemma_digits_val_bound(b@, i as int, (m + 1) as int);
            lemma_pow10_monotone((m + 1 - i) as nat, 19);
            assert(pow10(19) == 10_000_000_000_000_000_000) by {
            reveal_with_fuel(pow10, 20);
        }
        }
        acc = acc * 10 + ((b[m] - 48) as u64);
        m = m + 1;
    }
    acc
}

/// `pow10` grows with its exponent.
proof fn lemma_pow10_monotone(a: nat, c: nat)
    requires
        a <= c,
    ensures
        pow10(a) <= pow10(c),
    decreases c,
{
    if a < c {
        lemma_pow10_monotone(a, (c - 1) as nat);
        assert(pow10((c - 1) as nat) >= 1) by {
            lemma_pow10_pos((c - 1) as nat);
        }
    }
}

proof fn lemma_pow10_pos(n: nat)
    ensures
        pow10(n) >= 1,
    decreases n,
{
    if n > 0 {
        lemma_pow10_pos((n - 1) as nat);
    }
}

/// The signed 64-bit integer denoted by `[i, j)`, exactly as the standard
/// decimal parse reads it: an optional sign, then digits, within the
/// 64-bit range.  `None` for anything else.
pub open spec fn numeral_i64(b: Seq<u8>, i: int, j: int) -> Option<i64> {
    if i >= j {
        None
    } else {
        let neg = b[i] == 45;
        let d0 = if b[i] == 45 || b[i] == 43 {
            i + 1
        } else {
            i
        };
        if d0 >= j || !all_digits(b, d0, j) {
            None
        } else {
            let z = skip_zeros(b, d0, j);
            if j - z > 19 {
                None
            } else {
                let v = digits_val(b, z, j);
                if neg {
                    if v <= 0x8000_0000_0000_0000 {
                        Some((0 - v) as i64)
                    } else {
                        None
                    }
                } else {
                    if v <= 0x7FFF_FFFF_FFFF_FFFF {
                        Some(v as i64)
                    } else {
                        None
                    }
                }
            }
        }
    }
}

fn numeral_i64_e(b: &[u8], i: usize, j: usize) -> (r: Option<i64>)
    requires
        i <= j <= b@.len(),
    ensures
        r == numeral_i64(b@, i as int, j as int),
{
    if i >= j {
        return None;
    }
    let first = b[i];
    let neg = first == 45;
    let d0: usize = if first == 45 || first == 43 {
        i + 1
    } else {
        i
    };
    if d0 >= j || !all_digits_e(b, d0, j) {
        return None;
    }
    let z = skip_zeros_e(b, d0, j);
    if j - z > 19 {
        return None;
    }
    proof {
        assert(all_digits(b@, z as int, j as int));
    }
    let v = digits_val_e(b, z, j);
    if neg {
        if v <= 0x8000_0000_0000_0000 {
            if v == 0x8000_0000_0000_0000 {
                Some(i64::MIN)
            } else {
                Some(-(v as i64))
            }
        } else {
            None
        }
    } else {
        if v <= 0x7FFF_FFFF_FFFF_FFFF {
            Some(v as i64)
        } else {
            None
        }
    }
}

/// The integer a value field denotes to the parser: the field trimmed of
/// blanks, cut at the first comment slash, trimmed of spaces, must be a
/// signed 64-bit numeral of printable ASCII.  `None` for every field the
/// parser would read as anything but such an integer.
pub open spec fn token_int(b: Seq<u8>, lo: int, hi: int) -> Option<i64> {
    let s = skip_blank(b, lo, hi);
    let e0 = drop_blank(b, s, hi);
    let c = find_byte(b, s, e0, 47);
    if !(forall|m: int| s <= m < c ==> 32 <= #[trigger] b[m] <= 126) {
        None
    } else {
        let e1 = drop_blank(b, s, c);
        numeral_i64(b, s, e1)
    }
}

fn token_int_e(b: &[u8], lo: usize, hi: usize) -> (r: Option<i64>)
    requires
        lo <= hi <= b@.len(),
    ensures
        r == token_int(b@, lo as int, hi as int),
{
    let s = skip_blank_e(b, lo, hi);
    let e0 = drop_blank_e(b, s, hi);
    let c = find_byte_e(b, s, e0, 47);
    let mut m: usize = s;
    while m < c
        invariant
            lo <= s <= m <= c <= b@.len(),
            s == skip_blank(b@, lo as int, hi as int),
            e0 == drop_blank(b@, s as int, hi as int),
            c == find_byte(b@, s as int, e0 as int, 47),
            forall|k: int| s <= k < m ==> 32 <= #[trigger] b@[k] <= 126,
        decreases c - m,
    {
        let ch = b[m];
        if !(32 <= ch && ch <= 126) {
            proof {
                let kk = m as int;
                assert(s <= kk < c && !(32 <= b@[kk] <= 126));
                assert(!(forall|k: int|
                    s as int <= k < c as int ==> 32 <= #[trigger] b@[k] <= 126));
            }
            return None;
        }
        m = m + 1;
    }
    let e1 = drop_blank_e(b, s, c);
    numeral_i64_e(b, s, e1)
}

/// Start of the trimmed keyword of the record at `r`.
pub open spec fn kw_start(b: Seq<u8>, r: int) -> int {
    skip_blank(b, r, r + 8)
}

/// End of the trimmed keyword of the record at `r`.
pub open spec fn kw_end(b: Seq<u8>, r: int) -> int {
    drop_blank(b, kw_start(b, r), r + 8)
}

/// The five bytes at `i` spell the axis keyword stem.
pub open spec fn naxis_stem_at(b: Seq<u8>, i: int) -> bool {
    b[i] == 78 && b[i + 1] == 65 && b[i + 2] == 88 && b[i + 3] == 73 && b[i + 4] == 83
}

/// The record at `r` is the header-terminating record.
pub open spec fn rec_is_end(b: Seq<u8>, r: int) -> bool {
    let ks = kw_start(b, r);
    let ke = kw_end(b, r);
    ke - ks == 3 && b[ks] == 69 && b[ks + 1] == 78 && b[ks + 2] == 68
}

/// The record at `r` carries a value field (keyword, then `= `).
pub open spec fn rec_has_eq(b: Seq<u8>, r: int) -> bool {
    b[r + 8] == 61 && b[r + 9] == 32
}

/// The digit suffix `[i, j)` as the parser renders axis indices: plain
/// digits without a leading zero.  Suffixes of more than 19 digits denote
/// indices no header that fits in memory can reach and are ignored.
pub open spec fn axis_index(b: Seq<u8>, i: int, j: int) -> Option<u64> {
    if i >= j || j - i > 19 || !all_digits(b, i, j) {
        None
    } else if b[i] == 48 && j - i > 1 {
        None
    } else {
        Some(digits_val(b, i, j) as u64)
    }
}

/// The record's trimmed keyword is exactly the axis-count keyword.
pub open spec fn rec_kw_is_naxis(b: Seq<u8>, r: int) -> bool {
    let ks = kw_start(b, r);
    let ke = kw_end(b, r);
    ke - ks == 5 && naxis_stem_at(b, ks)
}

/// The axis number of the record's trimmed keyword, when it is an axis
/// keyword.
pub open spec fn rec_kw_axis(b: Seq<u8>, r: int) -> Option<u64> {
    let ks = kw_start(b, r);
    let ke = kw_end(b, r);
    if ke - ks >= 6 && naxis_stem_at(b, ks) {
        axis_index(b, ks + 5, ke)
    } else {
        None
    }
}

/// The record at `r` uses the big-keyword convention.
pub open spec fn rec_is_hierarch(b: Seq<u8>, r: int) -> bool {
    let ks = kw_start(b, r);
    let ke = kw_end(b, r);
    ke - ks == 8 && b[ks] == 72 && b[ks + 1] == 73 && b[ks + 2] == 69 && b[ks + 3] == 82 && b[ks
        + 4] == 65 && b[ks + 5] == 82 && b[ks + 6] == 67 && b[ks + 7] == 72
}

/// Position of the equals sign of a big-keyword record, or `r + 80`.
pub open spec fn hier_eq(b: Seq<u8>, r: int) -> int {
    find_byte(b, r + 9, r + 80, 61)
}

/// Start and end of the single name word of a big-keyword record.
pub open spec fn hier_word_start(b: Seq<u8>, r: int) -> int {
    skip_blank(b, r + 9, hier_eq(b, r))
}

pub open spec fn hier_word_end(b: Seq<u8>, r: int) -> int {
    skip_nonblank(b, hier_word_start(b, r), hier_eq(b, r))
}

/// The big-keyword record names exactly one word; multi-word names are
/// joined with dots by the parser and can never collide with an axis
/// keyword.
pub open spec fn hier_single_word(b: Seq<u8>, r: int) -> bool {
    let eq = hier_eq(b, r);
    let ws = hier_word_start(b, r);
    let we = hier_word_end(b, r);
    eq < r + 80 && ws < we && skip_blank(b, we, eq) == eq
}

/// The big-keyword record names the axis-count keyword.
pub open spec fn hier_is_naxis(b: Seq<u8>, r: int) -> bool {
    let ws = hier_word_start(b, r);
    let we = hier_word_end(b, r);
    hier_single_word(b, r) && we - ws == 5 && naxis_stem_at(b, ws)
}

/// The axis number named by the big-keyword record, if any.
pub open spec fn hier_axis(b: Seq<u8>, r: int) -> Option<u64> {
    let ws = hier_word_start(b, r);
    let we = hier_word_end(b, r);
    if hier_single_word(b, r) && we - ws >= 6 && naxis_stem_at(b, ws) {
        axis_index(b, ws + 5, we)
    } else {
        None
    }
}

/// One record's effect on the scan: the terminating record freezes the
/// state; an axis-count or axis record replaces the count or appends the
/// axis (the appended list read back to front realizes last-wins); a
/// size-relevant record whose value is not a plain integer marks the scan
/// rejected; every other record is ignored.
pub open spec fn scan_step(
    b: Seq<u8>,
    r: int,
    done: bool,
    rej: bool,
    naxis: Option<i64>,
    axes: Seq<(u64, i64)>,
) -> (bool, bool, Option<i64>, Seq<(u64, i64)>) {
    if done {
        (done, rej, naxis, axes)
    } else if rec_is_end(b, r) {
        (true, rej, naxis, axes)
    } else if rec_kw_is_naxis(b, r) && rec_has_eq(b, r) {
        match token_int(b, r + 10, r + 80) {
            Some(v) => (false, rej, Some(v), axes),
            None => (false, true, naxis, axes),
        }
    } else if rec_has_eq(b, r) && rec_kw_axis(b, r) is Some {
        match token_int(b, r + 10, r + 80) {
            Some(v) => (false, rej, naxis, axes.push((rec_kw_axis(b, r)->0, v))),
            None => (false, true, naxis, axes),
        }
    } else if rec_is_hierarch(b, r) && hier_is_naxis(b, r) {
        match token_int(b, hier_eq(b, r) + 1, r + 80) {
            Some(v) => (false, rej, Some(v), axes),
            None => (false, true, naxis, axes),
        }
    } else if rec_is_hierarch(b, r) && hier_axis(b, r) is Some {
        match token_int(b, hier_eq(b, r) + 1, r + 80) {
            Some(v) => (false, rej, naxis, axes.push((hier_axis(b, r)->0, v))),
            None => (false, true, naxis, axes),
        }
    } else {
        (false, rej, naxis, axes)
    }
}

/// The scan state after the first `k` records.
pub open spec fn scan_axes(b: Seq<u8>, k: nat) -> (bool, bool, Option<i64>, Seq<(u64, i64)>)
    decreases k,
{
    if k == 0 {
        (false, false, None::<i64>, Seq::<(u64, i64)>::empty())
    } else {
        let st = scan_axes(b, (k - 1) as nat);
        scan_step(b, 80 * (k - 1), st.0, st.1, st.2, st.3)
    }
}

/// The winning (last) declared size of axis `i`.
pub open spec fn last_axis(axes: Seq<(u64, i64)>, i: u64) -> Option<i64>
    decreases axes.len(),
{
    if axes.len() == 0 {
        None
    } else if axes.last().0 == i {
        Some(axes.last().1)
    } else {
        last_axis(axes.drop_last(), i)
    }
}

/// Walking axes `i..=n`: the product of the declared sizes, times the
/// widest sample byte width, stays within 64 bits.  A missing axis stops
/// the parser before any size computation, so the walk may stop there; a
/// negative size makes the parser's unsigned read fail, rejected here
/// outright.
pub open spec fn axes_fit(axes: Seq<(u64, i64)>, n: int, i: int, acc: int) -> bool
    decreases n + 1 - i,
{
    if i > n {
        true
    } else {
        match last_axis(axes, i as u64) {
            None => true,
            Some(v) => if v < 0 {
                false
            } else if 8 * acc * (v as int) > 0xFFFF_FFFF_FFFF_FFFF {
                false
            } else {
                axes_fit(axes, n, i + 1, acc * (v as int))
            },
        }
    }
}

/// Every data-block size the parser can derive from the stream's first
/// header fits 64-bit arithmetic.  True whenever the parser would fail
/// before computing a size (no terminating record, no axis count, a
/// missing axis); false when a size-relevant record cannot be bounded.
pub open spec fn axis_sizes_bounded(b: Seq<u8>) -> bool {
    let st = scan_axes(b, (b.len() / 80) as nat);
    if !st.0 {
        true
    } else if st.1 {
        false
    } else {
        match st.2 {
            None => true,
            Some(n) => if n < 0 {
                false
            } else {
                axes_fit(st.3, n as int, 1, 1)
            },
        }
    }
}

fn naxis_stem_e(b: &[u8], i: usize) -> (r: bool)
    requires
        i + 5 <= b@.len(),
    ensures
        r == naxis_stem_at(b@, i as int),
{
    b[i] == 78 && b[i + 1] == 65 && b[i + 2] == 88 && b[i + 3] == 73 && b[i + 4] == 83
}

fn axis_index_e(b: &[u8], i: usize, j: usize) -> (r: Option<u64>)
    requires
        i <= b@.len(),
        j <= b@.len(),
    ensures
        r == axis_index(b@, i as int, j as int),
{
    if i >= j || j - i > 19 || !all_digits_e(b, i, j) {
        return None;
    }
    if b[i] == 48 && j - i > 1 {
        return None;
    }
    let v = digits_val_e(b, i, j);
    Some(v)
}

struct RecInfo {
    is_end: bool,
    kw_naxis: bool,
    has_eq: bool,
    kw_axis: Option<u64>,
    hier: bool,
    hier_naxis: bool,
    hier_ax: Option<u64>,
    hier_val: usize,
}

fn classify_record(b: &[u8], r: usize) -> (info: RecInfo)
    requires
        r + 80 <= b@.len(),
    ensures
        info.is_end == rec_is_end(b@, r as int),
        info.kw_naxis == rec_kw_is_naxis(b@, r as int),
        info.has_eq == rec_has_eq(b@, r as int),
        info.kw_axis == rec_kw_axis(b@, r as int),
        info.hier == rec_is_hierarch(b@, r as int),
        info.hier_naxis == hier_is_naxis(b@, r as int),
        info.hier_ax == hier_axis(b@, r as int),
        hier_single_word(b@, r as int) ==> info.hier_val == hier_eq(b@, r as int) + 1,
        r <= info.hier_val <= r + 80,
{
    let blen: usize = b.len();
    proof {
        assert(blen == b@.len());
    }
    let ks = skip_blank_e(b, r, r + 8);
    let ke = drop_blank_e(b, ks, r + 8);
    let is_end = ke - ks == 3 && b[ks] == 69 && b[ks + 1] == 78 && b[ks + 2] == 68;
    let kw_naxis = ke - ks == 5 && naxis_stem_e(b, ks);
    let has_eq = b[r + 8] == 61 && b[r + 9] == 32;
    let kw_axis = if ke - ks >= 6 && naxis_stem_e(b, ks) {
        axis_index_e(b, ks + 5, ke)
    } else {
        None
    };
    let hier = ke - ks == 8 && b[ks] == 72 && b[ks + 1] == 73 && b[ks + 2] == 69 && b[ks + 3]
        == 82 && b[ks + 4] == 65 && b[ks + 5] == 82 && b[ks + 6] == 67 && b[ks + 7] == 72;
    let eq = find_byte_e(b, r + 9, r + 80, 61);
    let ws = skip_blank_e(b, r + 9, eq);
    let we = skip_nonblank_e(b, ws, eq);
    let single = eq < r + 80 && ws < we && skip_blank_e(b, we, eq) == eq;
    let hier_naxis = single && we - ws == 5 && naxis_stem_e(b, ws);
    let hier_ax = if single && we - ws >= 6 && naxis_stem_e(b, ws) {
        axis_index_e(b, ws + 5, we)
    } else {
        None
    };
    let hier_val: usize = if eq < r + 80 {
        eq + 1
    } else {
        r + 80
    };
    RecInfo { is_end, kw_naxis, has_eq, kw_axis, hier, hier_naxis, hier_ax, hier_val }
}

fn scan_records(b: &[u8]) -> (res: (bool, bool, Option<i64>, Vec<(u64, i64)>))
    ensures
        ({
            let st = scan_axes(b@, (b@.len() / 80) as nat);
            &&& res.0 == st.0
            &&& res.1 == st.1
            &&& res.2 == st.2
            &&& res.3@ == st.3
        }),
{
    let total: usize = b.len() / 80;
    let mut done: bool = false;
    let mut rej: bool = false;
    let mut naxis: Option<i64> = None;
    let mut axes: Vec<(u64, i64)> = Vec::new();
    let mut k: usize = 0;
    while k < total
        invariant
            k <= total == b@.len() / 80,
            b@.len() <= usize::MAX,
            ({
                let st = scan_axes(b@, k as nat);
                &&& done == st.0
                &&& rej == st.1
                &&& naxis == st.2
                &&& axes@ == st.3
            }),
        decreases total - k,
    {
        proof {
            vstd::arithmetic::div_mod::lemma_fundamental_div_mod(b@.len() as int, 80);
            assert(80 * (k + 1) <= b@.len());
        }
        let r: usize = 80 * k;
        if !done {
            let info = classify_record(b, r);
            if info.is_end {
                done = true;
            } else if info.kw_naxis && info.has_eq {
                match token_int_e(b, r + 10, r + 80) {
                    Some(v) => { naxis = Some(v); },
                    None => { rej = true; },
                }
            } else if info.has_eq && info.kw_axis.is_some() {
                let ai = info.kw_axis.unwrap();
                match token_int_e(b, r + 10, r + 80) {
                    Some(v) => { axes.push((ai, v)); },
                    None => { rej = true; },
                }
            } else if info.hier && info.hier_naxis {
                match token_int_e(b, info.hier_val, r + 80) {
                    Some(v) => { naxis = Some(v); },
                    None => { rej = true; },
                }
            } else if info.hier && info.hier_ax.is_some() {
                let ai = info.hier_ax.unwrap();
                match token_int_e(b, info.hier_val, r + 80) {
                    Some(v) => { axes.push((ai, v)); },
                    None => { rej = true; },
                }
            }
        }
        proof {
            let st = scan_axes(b@, k as nat);
            assert(scan_axes(b@, (k + 1) as nat) == scan_step(
                b@,
                80 * (k as int),
                st.0,
                st.1,
                st.2,
                st.3,
            ));
        }
        k = k + 1;
    }
    (done, rej, naxis, axes)
}

fn last_axis_e(axes: &Vec<(u64, i64)>, i: u64) -> (r: Option<i64>)
    ensures
        r == last_axis(axes@, i),
{
    proof {
        assert(axes@.subrange(0, axes@.len() as int) =~= axes@);
    }
    let mut j: usize = axes.len();
    while j > 0
        invariant
            j <= axes@.len(),
            last_axis(axes@, i) == last_axis(axes@.subrange(0, j as int), i),
        decreases j,
    {
        let pair = axes[j - 1];
        proof {
            assert(axes@.subrange(0, j as int).last() == axes@[j - 1]);
            assert(axes@.subrange(0, j as int).drop_last() =~= axes@.subrange(0, j - 1));
        }
        if pair.0 == i {
            return Some(pair.1);
        }
        j = j - 1;
    }
    None
}

fn axes_fit_e(axes: &Vec<(u64, i64)>, n: i64) -> (r: bool)
    requires
        n >= 0,
    ensures
        r == axes_fit(axes@, n as int, 1, 1),
{
    let nu: u64 = n as u64;
    let mut i: u64 = 1;
    let mut acc: u128 = 1;
    while i <= nu
        invariant
            1 <= i <= nu + 1,
            nu == n,
            1 <= acc || acc == 0,
            acc <= 0x1FFF_FFFF_FFFF_FFFF,
            axes_fit(axes@, n as int, 1, 1) == axes_fit(axes@, n as int, i as int, acc as int),
        decreases nu + 1 - i,
    {
        match last_axis_e(axes, i) {
            None => {
                proof {
                    assert(axes_fit(axes@, n as int, i as int, acc as int) == true);
                }
                return true;
            },
            Some(v) => {
                if v < 0 {
                    return false;
                }
                proof {
                    assert((acc as int) * (v as int) < 0x1_0000_0000_0000_0000_0000_0000_0000_0000)
                        by (nonlinear_arith)
                        requires
                            0 <= acc <= 0x1FFF_FFFF_FFFF_FFFF,
                            0 <= v <= 0x7FFF_FFFF_FFFF_FFFF,
                    ;
                }
                let acc2: u128 = acc * (v as u128);
                if acc2 > 0x1FFF_FFFF_FFFF_FFFF {
                    proof {
                        assert(8 * (acc as int) * (v as int) > 0xFFFF_FFFF_FFFF_FFFF)
                            by (nonlinear_arith)
                            requires
                                (acc as int) * (v as int) == acc2 as int,
                                acc2 > 0x1FFF_FFFF_FFFF_FFFF,
                        ;
                        assert(axes_fit(axes@, n as int, i as int, acc as int) == false);
                    }
                    return false;
                }
                proof {
                    assert(8 * (acc as int) * (v as int) <= 0xFFFF_FFFF_FFFF_FFFF)
                        by (nonlinear_arith)
                        requires
                            (acc as int) * (v as int) == acc2 as int,
                            acc2 <= 0x1FFF_FFFF_FFFF_FFFF,
                    ;
                    assert(axes_fit(axes@, n as int, i as int, acc as int) == axes_fit(
                        axes@,
                        n as int,
                        (i + 1) as int,
                        acc2 as int,
                    ));
                }
                acc = acc2;
                i = i + 1;
            },
        }
    }
    proof {
        assert(axes_fit(axes@, n as int, i as int, acc as int) == true);
    }
    true
}

/// Whether the stream's first header declares only data-block sizes the
/// parser can compute in 64-bit arithmetic.
pub fn axis_sizes_bounded_check(b: &[u8]) -> (r: bool)
    ensures
        r == axis_sizes_bounded(b@),
{
    let (done, rej, naxis, axes) = scan_records(b);
    if !done {
        true
    } else if rej {
        false
    } else {
        match naxis {
            None => true,
            Some(n) => if n < 0 {
                false
            } else {
                axes_fit_e(&axes, n)
            },
        }
    }
}

} // verus!
