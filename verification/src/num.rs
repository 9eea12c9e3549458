//! The numeric half of the value model: IEEE 754 binary64 doubles carried as
//! their bit patterns.
//!
//! A finite double with sign `s`, exponent field `e` and fraction field `f`
//! denotes `(-1)^s * m * 2^(be - 1075)`, where `m` is the integer significand
//! (`f` for subnormals, `2^52 + f` for normals) and `be` is the effective
//! biased exponent (`1` for subnormals, `e` otherwise).  Everything the value
//! model asks of a double — is it NaN, is it zero, how do two doubles order,
//! what does truncation toward zero give — is stated over those integer
//! fields and proved.

use vstd::prelude::*;

verus! {

use core::cmp::Ordering;
use vstd::arithmetic::div_mod::lemma_basic_div;
use vstd::arithmetic::div_mod::lemma_div_nonincreasing;
use vstd::arithmetic::mul::lemma_mul_basics;
use vstd::arithmetic::mul::lemma_mul_inequality;
use vstd::arithmetic::mul::lemma_mul_left_inequality;
use vstd::arithmetic::mul::lemma_mul_strict_inequality;
use vstd::arithmetic::mul::lemma_mul_strictly_positive;
use vstd::arithmetic::mul::lemma_mul_upper_bound;
use vstd::arithmetic::power2::lemma_pow2_adds;
use vstd::arithmetic::power2::lemma_pow2_pos;
use vstd::arithmetic::power2::lemma_pow2_strictly_increases;
use vstd::arithmetic::power2::lemma2_to64;
use vstd::arithmetic::power2::lemma2_to64_rest;
use vstd::arithmetic::power2::pow2;
use vstd::bits::lemma_u64_shl_is_mul;
use vstd::bits::lemma_u64_shr_is_div;

/// Fraction (mantissa) field: low 52 bits.
pub const FRAC_MASK: u64 = 0x000f_ffff_ffff_ffff;

/// The implicit leading significand bit of a normal double, `2^52`.
pub const IMPLICIT_BIT: u64 = 0x0010_0000_0000_0000;

/// Everything but the sign bit.
pub const ABS_MASK: u64 = 0x7fff_ffff_ffff_ffff;

/// The sign bit.
pub const SIGN_MASK: u64 = 0x8000_0000_0000_0000;

/// Bits of `+1.0`.
pub const ONE_BITS: u64 = 0x3ff0_0000_0000_0000;

/// Bits of `+0.0`.
pub const ZERO_BITS: u64 = 0;

/// Bits of positive infinity.
pub const POS_INF_BITS: u64 = 0x7ff0_0000_0000_0000;

/// Bits of negative infinity.
pub const NEG_INF_BITS: u64 = 0xfff0_0000_0000_0000;

/// The 11-bit exponent field.
pub open spec fn exp_field(b: u64) -> u64 {
    (b >> 52) & 0x7ff
}

/// The 52-bit fraction field.
pub open spec fn frac_field(b: u64) -> u64 {
    b & FRAC_MASK
}

/// The sign bit, as 0 or 1.
pub open spec fn sign_field(b: u64) -> u64 {
    b >> 63
}

pub open spec fn is_negative_bits(b: u64) -> bool {
    sign_field(b) == 1
}

pub open spec fn is_nan_bits(b: u64) -> bool {
    exp_field(b) == 0x7ff && frac_field(b) != 0
}

pub open spec fn is_inf_bits(b: u64) -> bool {
    exp_field(b) == 0x7ff && frac_field(b) == 0
}

/// Positive or negative zero.
pub open spec fn is_zero_bits(b: u64) -> bool {
    exp_field(b) == 0 && frac_field(b) == 0
}

/// The integer significand: the fraction field, with the implicit leading
/// bit added for normal numbers.
pub open spec fn sig(b: u64) -> nat {
    if exp_field(b) == 0 {
        frac_field(b) as nat
    } else {
        (IMPLICIT_BIT + frac_field(b)) as nat
    }
}

/// The effective biased exponent: subnormals share the lowest binade.
pub open spec fn bexp(b: u64) -> nat {
    if exp_field(b) == 0 {
        1
    } else {
        exp_field(b) as nat
    }
}

/// The magnitude of the double scaled to an integer: `|value| * 2^1074`,
/// since the smallest positive double is `2^-1074`.  For the two infinities
/// the same formula yields `2^2098`, one binade above every finite magnitude,
/// so order is preserved; it is not defined for NaN patterns.
pub open spec fn mag_scaled(b: u64) -> nat {
    sig(b) * pow2((bexp(b) - 1) as nat)
}

/// The signed value of the double scaled to an integer: `value * 2^1074`,
/// with the infinities one binade beyond the finite range.  Both zeros map
/// to 0, as IEEE 754 comparison demands.
pub open spec fn signed_scaled(b: u64) -> int {
    if is_negative_bits(b) {
        -(mag_scaled(b) as int)
    } else {
        mag_scaled(b) as int
    }
}

/// IEEE 754 ordering of two non-NaN doubles.
pub open spec fn num_cmp(a: u64, b: u64) -> Ordering {
    if signed_scaled(a) < signed_scaled(b) {
        Ordering::Less
    } else if signed_scaled(a) == signed_scaled(b) {
        Ordering::Equal
    } else {
        Ordering::Greater
    }
}

/// `|value|` truncated toward zero, for finite bit patterns.
pub open spec fn trunc_abs(b: u64) -> nat {
    if bexp(b) >= 1075 {
        sig(b) * pow2((bexp(b) - 1075) as nat)
    } else {
        sig(b) / pow2((1075 - bexp(b)) as nat)
    }
}

/// What `as`-conversion of the double to `u64` yields: truncation toward
/// zero, saturating at the ends, with NaN going to 0.
pub open spec fn trunc_sat_u64_bits(b: u64) -> u64 {
    if is_nan_bits(b) || is_negative_bits(b) {
        0
    } else if is_inf_bits(b) || trunc_abs(b) > u64::MAX {
        u64::MAX
    } else {
        trunc_abs(b) as u64
    }
}

/// What `as`-conversion of the double to `usize` yields.
pub open spec fn trunc_sat_usize_bits(b: u64) -> usize {
    if trunc_sat_u64_bits(b) > usize::MAX as u64 {
        usize::MAX
    } else {
        trunc_sat_u64_bits(b) as usize
    }
}

/// How the bit fields sit inside the word.
proof fn lemma_fields(b: u64)
    ensures
        (b & ABS_MASK) == exp_field(b) * IMPLICIT_BIT + frac_field(b),
        exp_field(b) <= 0x7ff,
        frac_field(b) < IMPLICIT_BIT,
        (b >= SIGN_MASK) == (sign_field(b) == 1),
{
    assert((b & 0x7fff_ffff_ffff_ffff) == ((b >> 52) & 0x7ff) * 0x0010_0000_0000_0000 + (b
        & 0x000f_ffff_ffff_ffff)) by (bit_vector);
    assert(((b >> 52) & 0x7ff) <= 0x7ff) by (bit_vector);
    assert((b & 0x000f_ffff_ffff_ffff) < 0x0010_0000_0000_0000) by (bit_vector);
    assert((b >= 0x8000_0000_0000_0000) == ((b >> 63) == 1)) by (bit_vector);
}

/// A strictly smaller (exponent, fraction) pair gives a strictly smaller
/// magnitude.
proof fn lemma_mag_strict(a: u64, b: u64)
    requires
        exp_field(a) < exp_field(b) || (exp_field(a) == exp_field(b) && frac_field(a) < frac_field(
            b,
        )),
    ensures
        mag_scaled(a) < mag_scaled(b),
{
    lemma_fields(a);
    lemma_fields(b);
    lemma2_to64();
    lemma2_to64_rest();
    let ea = exp_field(a);
    let eb = exp_field(b);
    if ea == eb {
        lemma_pow2_pos((bexp(a) - 1) as nat);
        lemma_mul_strict_inequality(
            sig(a) as int,
            sig(b) as int,
            pow2((bexp(a) - 1) as nat) as int,
        );
    } else if ea == 0 {
        // a sits in the lowest binade with no implicit bit, b is normal
        lemma_mul_basics(sig(a) as int);
        assert(mag_scaled(a) == sig(a));
        lemma_pow2_pos((bexp(b) - 1) as nat);
        lemma_mul_left_inequality(sig(b) as int, 1, pow2((bexp(b) - 1) as nat) as int);
        lemma_mul_basics(sig(b) as int);
        assert(mag_scaled(b) >= sig(b));
        assert(sig(a) < IMPLICIT_BIT <= sig(b));
    } else {
        // both normal, in different binades
        let sa = (ea - 1) as nat;
        let sb = (eb - 1) as nat;
        lemma_pow2_pos(sa);
        lemma_pow2_pos(sb);
        // mag(a) < 2^53 * 2^(ea-1) = 2^(ea+52)
        lemma_mul_strict_inequality(sig(a) as int, pow2(53) as int, pow2(sa) as int);
        lemma_pow2_adds(53, sa);
        // 2^(ea+52) <= 2^(eb+51)
        if ea + 52 < eb + 51 {
            lemma_pow2_strictly_increases((53 + sa) as nat, (52 + sb) as nat);
        }
        // 2^(eb+51) = 2^52 * 2^(eb-1) <= sig(b) * 2^(eb-1)
        lemma_pow2_adds(52, sb);
        lemma_mul_inequality(pow2(52) as int, sig(b) as int, pow2(sb) as int);
    }
}

/// Magnitude order is exactly lexicographic order on (exponent, fraction).
proof fn lemma_mag_order(a: u64, b: u64)
    ensures
        (mag_scaled(a) < mag_scaled(b)) <==> (exp_field(a) < exp_field(b) || (exp_field(a)
            == exp_field(b) && frac_field(a) < frac_field(b))),
        (mag_scaled(a) == mag_scaled(b)) <==> (exp_field(a) == exp_field(b) && frac_field(a)
            == frac_field(b)),
{
    let ea = exp_field(a);
    let eb = exp_field(b);
    let fa = frac_field(a);
    let fb = frac_field(b);
    if ea < eb || (ea == eb && fa < fb) {
        lemma_mag_strict(a, b);
    } else if eb < ea || (eb == ea && fb < fa) {
        lemma_mag_strict(b, a);
    } else {
        assert(mag_scaled(a) == mag_scaled(b));
    }
}

/// A magnitude is zero exactly for the two zero patterns.
proof fn lemma_mag_zero(b: u64)
    ensures
        (mag_scaled(b) == 0) <==> is_zero_bits(b),
{
    lemma_fields(b);
    lemma2_to64();
    if exp_field(b) == 0 {
        lemma_mul_basics(frac_field(b) as int);
        assert(mag_scaled(b) == frac_field(b));
    } else {
        lemma_pow2_pos((bexp(b) - 1) as nat);
        lemma_mul_strictly_positive(sig(b) as int, pow2((bexp(b) - 1) as nat) as int);
    }
}

/// IEEE 754 comparison of two non-NaN doubles, over their bit patterns.
pub fn cmp_num_bits(a: u64, b: u64) -> (r: Ordering)
    requires
        !is_nan_bits(a),
        !is_nan_bits(b),
    ensures
        r == num_cmp(a, b),
{
    proof {
        lemma_fields(a);
        lemma_fields(b);
        lemma_mag_order(a, b);
        lemma_mag_zero(a);
        lemma_mag_zero(b);
    }
    let abs_a = a & ABS_MASK;
    let abs_b = b & ABS_MASK;
    let neg_a = a >= SIGN_MASK;
    let neg_b = b >= SIGN_MASK;
    if abs_a == 0 && abs_b == 0 {
        Ordering::Equal
    } else if neg_a != neg_b {
        if neg_a {
            Ordering::Less
        } else {
            Ordering::Greater
        }
    } else if !neg_a {
        if abs_a < abs_b {
            Ordering::Less
        } else if abs_a == abs_b {
            Ordering::Equal
        } else {
            Ordering::Greater
        }
    } else {
        if abs_b < abs_a {
            Ordering::Less
        } else if abs_a == abs_b {
            Ordering::Equal
        } else {
            Ordering::Greater
        }
    }
}

/// The significand really is the fraction with the implicit bit or-ed in.
proof fn lemma_sig_or(f: u64)
    requires
        f < IMPLICIT_BIT,
    ensures
        (IMPLICIT_BIT | f) == IMPLICIT_BIT + f,
{
    assert((0x0010_0000_0000_0000u64 | f) == 0x0010_0000_0000_0000u64 + f) by (bit_vector)
        requires
            f < 0x0010_0000_0000_0000u64,
    ;
}

/// Truncation of the double toward zero, saturating into `u64`: what
/// `as`-conversion of the double to `u64` yields.
pub fn trunc_sat_u64(b: u64) -> (r: u64)
    ensures
        r == trunc_sat_u64_bits(b),
{
    proof {
        lemma_fields(b);
        lemma2_to64();
        lemma2_to64_rest();
    }
    let e = (b >> 52) & 0x7ff;
    let f = b & FRAC_MASK;
    if b >= SIGN_MASK {
        // negative values truncate and clamp to 0, and so do NaN patterns
        0
    } else if e == 0x7ff {
        if f != 0 {
            0
        } else {
            u64::MAX
        }
    } else if e < 1023 {
        // |value| < 1, so it truncates to 0
        proof {
            let sh = (1075 - bexp(b)) as nat;
            assert(sig(b) < pow2(53));
            if 53 < sh {
                lemma_pow2_strictly_increases(53, sh);
            }
            lemma_basic_div(sig(b) as int, pow2(sh) as int);
        }
        0
    } else if e < 1075 {
        // the binary point falls inside the significand: shift it out
        let m = IMPLICIT_BIT | f;
        let shift = 1075 - e;
        proof {
            lemma_sig_or(f);
            lemma_u64_shr_is_div(m, shift);
            lemma_pow2_pos(shift as nat);
            lemma_div_nonincreasing(sig(b) as int, pow2(shift as nat) as int);
        }
        m >> shift
    } else if e < 1087 {
        // the value is an integer below 2^64: shift the significand up
        let m = IMPLICIT_BIT | f;
        let shift = e - 1075;
        proof {
            lemma_sig_or(f);
            if shift < 11 {
                lemma_pow2_strictly_increases(shift as nat, 11);
            }
            lemma_mul_upper_bound(
                m as int,
                0x001f_ffff_ffff_ffff,
                pow2(shift as nat) as int,
                0x800,
            );
            lemma_u64_shl_is_mul(m, shift);
        }
        m << shift
    } else {
        // |value| >= 2^64: saturate
        proof {
            let sh = (bexp(b) - 1075) as nat;
            if 12 < sh {
                lemma_pow2_strictly_increases(12, sh);
            }
            lemma_mul_left_inequality(pow2(52) as int, pow2(12) as int, pow2(sh) as int);
            lemma_mul_inequality(pow2(52) as int, sig(b) as int, pow2(sh) as int);
            lemma_pow2_adds(52, 12);
        }
        u64::MAX
    }
}

/// Truncation of the double toward zero, saturating into `usize`: what
/// `as`-conversion of the double to `usize` yields.
pub fn trunc_sat_usize(b: u64) -> (r: usize)
    ensures
        r == trunc_sat_usize_bits(b),
{
    let t = trunc_sat_u64(b);
    if t > usize::MAX as u64 {
        usize::MAX
    } else {
        t as usize
    }
}

/// Whether the bit pattern is a NaN.
pub fn nan_bits(b: u64) -> (r: bool)
    ensures
        r == is_nan_bits(b),
{
    let e = (b >> 52) & 0x7ff;
    let f = b & FRAC_MASK;
    e == 0x7ff && f != 0
}

/// Whether the bit pattern is a zero (of either sign).
pub fn zero_bits(b: u64) -> (r: bool)
    ensures
        r == is_zero_bits(b),
{
    let e = (b >> 52) & 0x7ff;
    let f = b & FRAC_MASK;
    e == 0 && f == 0
}

} // verus!
