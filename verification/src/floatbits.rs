//! IEEE-754 values held as their bit patterns: doubles as 64-bit words,
//! singles as 32-bit words.
//!
//! Measurements and signal scalars travel through the library as the bit
//! pattern of the float they stand for (`f64::to_bits`, `f32::to_bits`). The comparisons
//! below follow IEEE-754 exactly: NaN compares unequal and unordered with
//! everything, the two zeros compare equal, and every other pair orders as
//! the real numbers (or infinities) they denote.
use vstd::prelude::*;

verus! {

pub open spec fn sign_bit(b: u64) -> bool {
    b >= 0x8000_0000_0000_0000
}

/// The 11-bit biased exponent.
pub open spec fn exponent(b: u64) -> int {
    (b as int / 0x10_0000_0000_0000) % 0x800
}

/// The 52-bit fraction.
pub open spec fn fraction(b: u64) -> int {
    b as int % 0x10_0000_0000_0000
}

/// Everything but the sign: a monotone image of the absolute value.
pub open spec fn magnitude(b: u64) -> int {
    b as int % 0x8000_0000_0000_0000
}

pub open spec fn is_nan(b: u64) -> bool {
    exponent(b) == 0x7ff && fraction(b) != 0
}

/// Neither infinite nor NaN, as `f64::is_finite` asks.
pub open spec fn is_finite(b: u64) -> bool {
    exponent(b) != 0x7ff
}

/// An integer that orders non-NaN values as the reals they denote and that
/// maps both zeros to 0.
pub open spec fn order_key(b: u64) -> int {
    if sign_bit(b) {
        -magnitude(b)
    } else {
        magnitude(b)
    }
}

/// `a == b` on the values.
pub open spec fn f64_eq(a: u64, b: u64) -> bool {
    !is_nan(a) && !is_nan(b) && order_key(a) == order_key(b)
}

/// `a < b` on the values.
pub open spec fn f64_lt(a: u64, b: u64) -> bool {
    !is_nan(a) && !is_nan(b) && order_key(a) < order_key(b)
}

/// `a <= b` on the values.
pub open spec fn f64_le(a: u64, b: u64) -> bool {
    !is_nan(a) && !is_nan(b) && order_key(a) <= order_key(b)
}

/// The bit pattern of `0.0`.
pub open spec fn zero() -> u64 {
    0
}

pub fn bits_is_nan(b: u64) -> (r: bool)
    ensures
        r == is_nan(b),
{
    let e = (b / 0x10_0000_0000_0000) % 0x800;
    let f = b % 0x10_0000_0000_0000;
    e == 0x7ff && f != 0
}

pub fn bits_is_finite(b: u64) -> (r: bool)
    ensures
        r == is_finite(b),
{
    let e = (b / 0x10_0000_0000_0000) % 0x800;
    e != 0x7ff
}

pub fn bits_eq(a: u64, b: u64) -> (r: bool)
    ensures
        r == f64_eq(a, b),
{
    if bits_is_nan(a) || bits_is_nan(b) {
        return false;
    }
    let ma = a % 0x8000_0000_0000_0000;
    let mb = b % 0x8000_0000_0000_0000;
    let sa = a >= 0x8000_0000_0000_0000;
    let sb = b >= 0x8000_0000_0000_0000;
    if sa == sb {
        ma == mb
    } else {
        ma == 0 && mb == 0
    }
}

pub fn bits_lt(a: u64, b: u64) -> (r: bool)
    ensures
        r == f64_lt(a, b),
{
    if bits_is_nan(a) || bits_is_nan(b) {
        return false;
    }
    let ma = a % 0x8000_0000_0000_0000;
    let mb = b % 0x8000_0000_0000_0000;
    let sa = a >= 0x8000_0000_0000_0000;
    let sb = b >= 0x8000_0000_0000_0000;
    if !sa && !sb {
        ma < mb
    } else if sa && !sb {
        !(ma == 0 && mb == 0)
    } else if !sa && sb {
        false
    } else {
        mb < ma
    }
}

pub fn bits_le(a: u64, b: u64) -> (r: bool)
    ensures
        r == f64_le(a, b),
{
    bits_lt(a, b) || bits_eq(a, b)
}

/// `x` is finite and strictly above zero.
pub open spec fn finite_positive(x: u64) -> bool {
    is_finite(x) && !f64_le(x, zero())
}


/// `|b| <= |limit|` on the values, NaN never within.
pub open spec fn abs_le(b: u64, limit: u64) -> bool {
    !is_nan(b) && !is_nan(limit) && magnitude(b) <= magnitude(limit)
}

pub fn bits_abs_le(b: u64, limit: u64) -> (r: bool)
    ensures
        r == abs_le(b, limit),
{
    !bits_is_nan(b) && !bits_is_nan(limit) && b % 0x8000_0000_0000_0000 <= limit % 0x8000_0000_0000_0000
}

/// The bit pattern of `f64::EPSILON`, `2^-52`.
pub open spec fn epsilon() -> u64 {
    0x3CB0_0000_0000_0000
}

/// Single precision, read the same way: the 8-bit biased exponent of an
/// `f32` pattern.
pub open spec fn exponent32(b: u32) -> int {
    (b as int / 0x80_0000) % 0x100
}

/// The 23-bit fraction of an `f32` pattern.
pub open spec fn fraction32(b: u32) -> int {
    b as int % 0x80_0000
}

/// Everything but the sign: the pattern of the absolute value.
pub open spec fn magnitude32(b: u32) -> int {
    b as int % 0x8000_0000
}

pub open spec fn is_nan32(b: u32) -> bool {
    exponent32(b) == 0xff && fraction32(b) != 0
}

/// An integer that orders non-NaN `f32` values as the reals they denote,
/// both zeros at 0.
pub open spec fn order_key32(b: u32) -> int {
    if b >= 0x8000_0000 {
        -magnitude32(b)
    } else {
        magnitude32(b)
    }
}

/// `a < b` on the `f32` values.
pub open spec fn f32_lt(a: u32, b: u32) -> bool {
    !is_nan32(a) && !is_nan32(b) && order_key32(a) < order_key32(b)
}

/// `a <= b` on the `f32` values.
pub open spec fn f32_le(a: u32, b: u32) -> bool {
    !is_nan32(a) && !is_nan32(b) && order_key32(a) <= order_key32(b)
}

/// The integer `f32::total_cmp` orders by: negative patterns below every
/// non-negative one, NaNs at either end by their sign.
pub open spec fn total_key32(b: u32) -> int {
    if b >= 0x8000_0000 {
        -1 - magnitude32(b)
    } else {
        b as int
    }
}

pub fn bits32_is_nan(b: u32) -> (r: bool)
    ensures
        r == is_nan32(b),
{
    (b / 0x80_0000) % 0x100 == 0xff && b % 0x80_0000 != 0
}

pub fn bits32_lt(a: u32, b: u32) -> (r: bool)
    ensures
        r == f32_lt(a, b),
{
    if bits32_is_nan(a) || bits32_is_nan(b) {
        return false;
    }
    let ma = a % 0x8000_0000;
    let mb = b % 0x8000_0000;
    let sa = a >= 0x8000_0000;
    let sb = b >= 0x8000_0000;
    if !sa && !sb {
        ma < mb
    } else if sa && !sb {
        !(ma == 0 && mb == 0)
    } else if !sa && sb {
        false
    } else {
        mb < ma
    }
}

pub fn bits32_le(a: u32, b: u32) -> (r: bool)
    ensures
        r == f32_le(a, b),
{
    if bits32_is_nan(a) || bits32_is_nan(b) {
        return false;
    }
    let ma = a % 0x8000_0000;
    let mb = b % 0x8000_0000;
    let sa = a >= 0x8000_0000;
    let sb = b >= 0x8000_0000;
    if !sa && !sb {
        ma <= mb
    } else if sa && !sb {
        true
    } else if !sa && sb {
        ma == 0 && mb == 0
    } else {
        mb <= ma
    }
}

/// The ordering key of `f32::total_cmp`.
pub fn bits32_total_key(b: u32) -> (k: i64)
    ensures
        k == total_key32(b),
{
    if b >= 0x8000_0000 {
        -1 - ((b % 0x8000_0000) as i64)
    } else {
        b as i64
    }
}

} // verus!
