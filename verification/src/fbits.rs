//! Bit-pattern model of IEEE-754 binary32 and binary64 values.
//!
//! The verified core never computes with floating-point numbers directly; a
//! binary32 value is carried as its bit pattern in a `u32` (a binary64 value
//! in a `u64`).  This module gives the few facts the core needs about such
//! patterns: which patterns are NaN, and a rank function `key32` that maps
//! bit patterns to `u32` so that the IEEE-754 total order on values
//! corresponds to the ordinary integer order on ranks.

use vstd::prelude::*;

verus! {

/// Bit pattern of the binary32 value 1.0.
pub const F32_ONE_BITS: u32 = 0x3F80_0000;

/// Bit pattern of the binary32 value 0.0.
pub const F32_ZERO_BITS: u32 = 0;

/// The canonical quiet-NaN binary32 bit pattern.
pub const F32_NAN_BITS: u32 = 0x7FC0_0000;

/// Whether a binary32 bit pattern denotes NaN: all exponent bits set and a
/// non-zero mantissa.
pub open spec fn is_nan32(b: u32) -> bool {
    b & 0x7F80_0000 == 0x7F80_0000 && b & 0x007F_FFFF != 0
}

/// Rank of a binary32 bit pattern in the IEEE-754 total order.
///
/// For patterns that are not NaN, `key32(a) <= key32(b)` holds exactly when
/// the value of `a` is less than or equal to the value of `b` in the IEEE-754
/// `totalOrder` predicate (which places -0.0 below +0.0).  Negative patterns
/// (sign bit set) are mapped, reversed, onto the low half of `u32`; positive
/// patterns onto the high half.
pub open spec fn key32(b: u32) -> u32 {
    if b & 0x8000_0000 != 0 {
        !b
    } else {
        b | 0x8000_0000
    }
}

/// `key32` never maps two distinct patterns to the same rank.
pub proof fn lemma_key32_injective(a: u32, b: u32)
    requires
        key32(a) == key32(b),
    ensures
        a == b,
{
    assert(key32(a) == key32(b) ==> a == b) by (bit_vector);
}

/// Executable NaN test on a binary32 bit pattern.
pub fn nan32(b: u32) -> (r: bool)
    ensures
        r == is_nan32(b),
{
    b & 0x7F80_0000 == 0x7F80_0000 && b & 0x007F_FFFF != 0
}

/// Executable total-order rank of a binary32 bit pattern.
pub fn rank32(b: u32) -> (r: u32)
    ensures
        r == key32(b),
{
    if b & 0x8000_0000 != 0 {
        !b
    } else {
        b | 0x8000_0000
    }
}

} // verus!
