//! IEEE 754 values held as their bit patterns.
//!
//! Sample levels, gains and tempi travel through this crate as the raw
//! encoding of a binary32 or binary64 number. The crate stores, copies,
//! zeroes and orders such values; it never rounds one. The order of two
//! encodings is the order of the numbers they encode, stated here over the
//! sign bit and the magnitude bits.
use vstd::prelude::*;

verus! {

/// Encoding of binary32 `+0.0`.
pub const F32_ZERO: u32 = 0;

/// Encoding of binary32 `1.0`.
pub const F32_ONE: u32 = 0x3F80_0000;

/// Encoding of binary32 positive infinity. Larger magnitudes encode NaN.
pub const F32_INFINITY: u32 = 0x7F80_0000;

/// The sign bit of a binary32 encoding.
pub const F32_SIGN: u32 = 0x8000_0000;

/// Encoding of binary64 positive infinity. Larger magnitudes encode NaN.
pub const F64_INFINITY: u64 = 0x7FF0_0000_0000_0000;

/// The sign bit of a binary64 encoding.
pub const F64_SIGN: u64 = 0x8000_0000_0000_0000;

/// The magnitude bits of a binary32 encoding: the encoding of the absolute value.
pub open spec fn f32_magnitude(bits: u32) -> u32 {
    if bits >= F32_SIGN {
        (bits - F32_SIGN) as u32
    } else {
        bits
    }
}

/// Whether a binary32 encoding has its sign bit set.
pub open spec fn f32_is_negative(bits: u32) -> bool {
    bits >= F32_SIGN
}

/// Whether a binary32 encoding is a NaN.
pub open spec fn f32_is_nan(bits: u32) -> bool {
    f32_magnitude(bits) > F32_INFINITY
}

/// Position of a non-NaN binary32 value on the number line: the magnitude
/// bits, negated under a set sign bit. Both zeros have rank 0, and a value is
/// below another exactly if its rank is smaller.
pub open spec fn f32_rank(bits: u32) -> int {
    if f32_is_negative(bits) {
        -(f32_magnitude(bits) as int)
    } else {
        f32_magnitude(bits) as int
    }
}

/// IEEE `<` on binary32 encodings: false as soon as one side is NaN.
pub open spec fn f32_lt(a: u32, b: u32) -> bool {
    !f32_is_nan(a) && !f32_is_nan(b) && f32_rank(a) < f32_rank(b)
}

/// The value `x` confined to `[lo, hi]` by two IEEE comparisons: a NaN, which
/// compares false both times, passes through unchanged.
pub open spec fn f32_clamped(x: u32, lo: u32, hi: u32) -> u32 {
    if f32_lt(x, lo) {
        lo
    } else if f32_lt(hi, x) {
        hi
    } else {
        x
    }
}

/// The magnitude bits of a binary64 encoding.
pub open spec fn f64_magnitude(bits: u64) -> u64 {
    if bits >= F64_SIGN {
        (bits - F64_SIGN) as u64
    } else {
        bits
    }
}

/// Whether a binary64 encoding has its sign bit set.
pub open spec fn f64_is_negative(bits: u64) -> bool {
    bits >= F64_SIGN
}

/// Whether a binary64 encoding is a NaN.
pub open spec fn f64_is_nan(bits: u64) -> bool {
    f64_magnitude(bits) > F64_INFINITY
}

/// Position of a non-NaN binary64 value on the number line.
pub open spec fn f64_rank(bits: u64) -> int {
    if f64_is_negative(bits) {
        -(f64_magnitude(bits) as int)
    } else {
        f64_magnitude(bits) as int
    }
}

/// IEEE `<` on binary64 encodings: false as soon as one side is NaN.
pub open spec fn f64_lt(a: u64, b: u64) -> bool {
    !f64_is_nan(a) && !f64_is_nan(b) && f64_rank(a) < f64_rank(b)
}

/// The value `x` confined to `[lo, hi]` by two IEEE comparisons.
pub open spec fn f64_clamped(x: u64, lo: u64, hi: u64) -> u64 {
    if f64_lt(x, lo) {
        lo
    } else if f64_lt(hi, x) {
        hi
    } else {
        x
    }
}

/// Absolute value of a binary32 encoding: the sign bit cleared.
pub fn abs_f32(bits: u32) -> (r: u32)
    ensures
        r == f32_magnitude(bits),
{
    if bits >= F32_SIGN {
        bits - F32_SIGN
    } else {
        bits
    }
}

/// Whether a binary32 encoding is a NaN.
pub fn is_nan_f32(bits: u32) -> (r: bool)
    ensures
        r == f32_is_nan(bits),
{
    abs_f32(bits) > F32_INFINITY
}

/// IEEE `a < b` on binary32 encodings.
pub fn lt_f32(a: u32, b: u32) -> (r: bool)
    ensures
        r == f32_lt(a, b),
{
    if is_nan_f32(a) || is_nan_f32(b) {
        return false;
    }
    let ma: u32 = abs_f32(a);
    let mb: u32 = abs_f32(b);
    if a >= F32_SIGN {
        if b >= F32_SIGN {
            ma > mb
        } else {
            ma > 0 || mb > 0
        }
    } else {
        if b >= F32_SIGN {
            false
        } else {
            ma < mb
        }
    }
}

/// Confine a binary32 value to `[lo, hi]`; a NaN passes through.
pub fn clamp_f32(x: u32, lo: u32, hi: u32) -> (r: u32)
    ensures
        r == f32_clamped(x, lo, hi),
{
    if lt_f32(x, lo) {
        lo
    } else if lt_f32(hi, x) {
        hi
    } else {
        x
    }
}

/// Absolute value of a binary64 encoding: the sign bit cleared.
pub fn abs_f64(bits: u64) -> (r: u64)
    ensures
        r == f64_magnitude(bits),
{
    if bits >= F64_SIGN {
        bits - F64_SIGN
    } else {
        bits
    }
}

/// Whether a binary64 encoding is a NaN.
pub fn is_nan_f64(bits: u64) -> (r: bool)
    ensures
        r == f64_is_nan(bits),
{
    abs_f64(bits) > F64_INFINITY
}

/// IEEE `a < b` on binary64 encodings.
pub fn lt_f64(a: u64, b: u64) -> (r: bool)
    ensures
        r == f64_lt(a, b),
{
    if is_nan_f64(a) || is_nan_f64(b) {
        return false;
    }
    let ma: u64 = abs_f64(a);
    let mb: u64 = abs_f64(b);
    if a >= F64_SIGN {
        if b >= F64_SIGN {
            ma > mb
        } else {
            ma > 0 || mb > 0
        }
    } else {
        if b >= F64_SIGN {
            false
        } else {
            ma < mb
        }
    }
}

/// Confine a binary64 value to `[lo, hi]`; a NaN passes through.
pub fn clamp_f64(x: u64, lo: u64, hi: u64) -> (r: u64)
    ensures
        r == f64_clamped(x, lo, hi),
{
    if lt_f64(x, lo) {
        lo
    } else if lt_f64(hi, x) {
        hi
    } else {
        x
    }
}

} // verus!
