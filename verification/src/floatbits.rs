//! IEEE 754 double-precision values, handled as their 64-bit bit patterns.
//!
//! The library never holds a floating-point value directly: an acceptance
//! probability or a uniform draw is carried as the `u64` bit pattern of the
//! corresponding `f64`. The strict-less-than order on doubles is plain
//! integer logic on those patterns, so it is implemented and verified here
//! rather than taken on trust.

use vstd::prelude::*;

verus! {

/// Bit pattern of `1.0f64`: every uniform draw in `[0, 1)` has a pattern
/// strictly below this (such doubles have a clear sign bit and a biased
/// exponent below 1023, and the pattern order on nonnegative doubles is the
/// value order).
pub const UNIT_ONE_BITS: u64 = 0x3FF0_0000_0000_0000;

/// The bit pattern with the sign bit cleared: the magnitude of the double.
pub open spec fn spec_abs_bits(x: u64) -> u64 {
    x & 0x7FFF_FFFF_FFFF_FFFF
}

/// A double is a NaN when its biased exponent is all ones and its mantissa
/// is nonzero, i.e. when its magnitude pattern lies above the infinity
/// pattern `0x7FF0_0000_0000_0000`.
pub open spec fn spec_is_nan(x: u64) -> bool {
    spec_abs_bits(x) > 0x7FF0_0000_0000_0000
}

/// A double is zero (of either sign) when its magnitude pattern is zero.
pub open spec fn spec_is_zero(x: u64) -> bool {
    spec_abs_bits(x) == 0
}

/// The sign bit of the double: 0 for nonnegative, 1 for negative.
pub open spec fn spec_sign_bit(x: u64) -> u64 {
    x >> 63
}

/// The IEEE 754 strict-less-than order on doubles, stated over their bit
/// patterns: false whenever either operand is NaN; `-0.0` and `+0.0` are
/// equal; otherwise a negative is below a nonnegative, and two doubles of
/// equal sign are ordered by their magnitude patterns (for nonnegative
/// doubles the pattern order is the value order, for negative doubles it is
/// reversed).
pub open spec fn spec_f64_lt(a: u64, b: u64) -> bool {
    if spec_is_nan(a) || spec_is_nan(b) {
        false
    } else if spec_is_zero(a) && spec_is_zero(b) {
        false
    } else if spec_sign_bit(a) != spec_sign_bit(b) {
        spec_sign_bit(a) == 1
    } else if spec_sign_bit(a) == 0 {
        spec_abs_bits(a) < spec_abs_bits(b)
    } else {
        spec_abs_bits(b) < spec_abs_bits(a)
    }
}

/// Decides `a < b` for the doubles whose bit patterns are `a` and `b`,
/// following the IEEE 754 order exactly.
pub fn f64_bits_lt(a: u64, b: u64) -> (r: bool)
    ensures
        r == spec_f64_lt(a, b),
{
    let a_abs: u64 = a & 0x7FFF_FFFF_FFFF_FFFF;
    let b_abs: u64 = b & 0x7FFF_FFFF_FFFF_FFFF;
    if a_abs > 0x7FF0_0000_0000_0000 || b_abs > 0x7FF0_0000_0000_0000 {
        false
    } else if a_abs == 0 && b_abs == 0 {
        false
    } else {
        let a_sign: u64 = a >> 63;
        let b_sign: u64 = b >> 63;
        if a_sign != b_sign {
            a_sign == 1
        } else if a_sign == 0 {
            a_abs < b_abs
        } else {
            b_abs < a_abs
        }
    }
}

/// The bit pattern of the double `m * 2^-53`, defined by normalizing:
/// double `frac` (keeping `frac == m * 2^shift`) until its leading bit is
/// bit 52, then assemble the biased exponent `1022 - shift` and the 52
/// mantissa bits below the leading bit. Zero encodes to zero.
pub open spec fn spec_norm_bits(frac: u64, shift: u64) -> u64
    decreases 53 - shift,
{
    if frac == 0 {
        0
    } else if frac < 0x10_0000_0000_0000 && shift < 53 {
        spec_norm_bits((frac * 2) as u64, (shift + 1) as u64)
    } else {
        (((1022 - shift) as u64) << 52) | (frac & 0xF_FFFF_FFFF_FFFF)
    }
}

/// The bit pattern of the uniform draw `m * 2^-53` for a 53-bit `m`.
pub open spec fn spec_unit_bits(m: u64) -> u64 {
    spec_norm_bits(m, 0)
}

/// Encodes a raw 64-bit draw `u` as the double `(u >> 11) * 2^-53`, a
/// uniform value in `[0, 1)`, returned as its bit pattern.
pub fn unit_bits_from_draw(u: u64) -> (r: u64)
    ensures
        r == spec_unit_bits(u >> 11),
        r < UNIT_ONE_BITS,
{
    let m: u64 = u >> 11;
    proof {
        assert(m < 0x20_0000_0000_0000) by (bit_vector)
            requires
                m == u >> 11,
        ;
    }
    if m == 0 {
        return 0;
    }
    let mut frac: u64 = m;
    let mut shift: u64 = 0;
    proof {
        assert(1u64 << 0u64 == 1) by (bit_vector);
    }
    while frac < 0x10_0000_0000_0000
        invariant
            1 <= frac < 0x20_0000_0000_0000,
            shift <= 52,
            (1u64 << shift) <= frac,
            spec_norm_bits(frac, shift) == spec_norm_bits(m, 0),
        decreases 0x20_0000_0000_0000 - frac,
    {
        proof {
            assert((1u64 << ((shift + 1) as u64)) <= (frac * 2) as u64 && (shift + 1) as u64 <= 52)
                by (bit_vector)
                requires
                    (1u64 << shift) <= frac,
                    frac < 0x10_0000_0000_0000,
                    shift <= 52,
            ;
        }
        frac = frac * 2;
        shift = shift + 1;
    }
    let e: u64 = 1022 - shift;
    let r: u64 = (e << 52) | (frac & 0xF_FFFF_FFFF_FFFF);
    proof {
        assert(r < 0x3FF0_0000_0000_0000) by (bit_vector)
            requires
                r == (e << 52) | (frac & 0xF_FFFF_FFFF_FFFF),
                e <= 1022,
        ;
    }
    r
}

} // verus!
