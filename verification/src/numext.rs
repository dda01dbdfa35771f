//! Double-precision operations that round freshly computed real results.
//!
//! The interpreter carries doubles as bit patterns, so every operation here
//! works on `u64` patterns. What a result is as a function of its operands
//! cannot be restated in a few lines, so each outside call gets a name (an
//! uninterpreted spec function), and the trusted wrapper promises only that
//! the call returns that named result.
//!
//! Two outside crates do the work: `rustc_apfloat` is bit-exact IEEE-754
//! double arithmetic for the basic operations, decimal parsing and decimal
//! rendering; `astro-float` computes the transcendental functions on
//! (mantissa, exponent) pairs at 64-bit precision, which this module
//! converts to and from IEEE-754 patterns with verified code. The
//! transcendental results may therefore differ from a platform `libm` in
//! the last unit of the fraction, which the interpreter's semantics
//! tolerate.

use vstd::prelude::*;

use astro_float::{BigFloat, Consts, RoundingMode, Sign, NAN};
use rustc_apfloat::ieee::Double;
use rustc_apfloat::Float;



verus! {

/// pi
pub const PI_BITS: u64 = 0x4009_21fb_5444_2d18;

/// e, the base of the natural logarithm
pub const E_BITS: u64 = 0x4005_bf0a_8b14_5769;

/// pi / 180
pub const DEG_TO_RAD_BITS: u64 = 0x3f91_df46_a252_9d39;

/// 180 / pi
pub const RAD_TO_DEG_BITS: u64 = 0x404c_a5dc_1a63_c1f8;

/// pi / 2
pub const HALF_PI_BITS: u64 = 0x3ff9_21fb_5444_2d18;

/// pi / 4
pub const QUARTER_PI_BITS: u64 = 0x3fe9_21fb_5444_2d18;

/// 3 * pi / 4
pub const THREE_QUARTER_PI_BITS: u64 = 0x4002_d97c_7f33_21d2;

/// Negative infinity.
pub const NEG_INF_BITS: u64 = 0xfff0_0000_0000_0000;

/// The value of `u32::MAX` as a double, which is exact.
pub const U32_MAX_BITS: u64 = 0x41ef_ffff_ffe0_0000;

pub uninterp spec fn add_bits(a: u64, b: u64) -> u64;

pub uninterp spec fn sub_bits(a: u64, b: u64) -> u64;

pub uninterp spec fn mul_bits(a: u64, b: u64) -> u64;

pub uninterp spec fn div_bits(a: u64, b: u64) -> u64;

pub uninterp spec fn fmod_bits(a: u64, b: u64) -> u64;

pub uninterp spec fn parsed_bits(s: Seq<char>) -> u64;

pub uninterp spec fn formatted_bits(b: u64) -> Seq<char>;

/// Relies on rustc_apfloat: IEEE-754 double addition, round to nearest,
/// ties to even.
#[verifier::external_body]
pub(crate) fn ext_add(a: u64, b: u64) -> (r: u64)
    ensures
        r == add_bits(a, b),
{
    (Double::from_bits(a as u128)
        + Double::from_bits(b as u128)).value.to_bits() as u64
}

/// Relies on rustc_apfloat: IEEE-754 double subtraction.
#[verifier::external_body]
pub(crate) fn ext_sub(a: u64, b: u64) -> (r: u64)
    ensures
        r == sub_bits(a, b),
{
    (Double::from_bits(a as u128)
        - Double::from_bits(b as u128)).value.to_bits() as u64
}

/// Relies on rustc_apfloat: IEEE-754 double multiplication.
#[verifier::external_body]
pub(crate) fn ext_mul(a: u64, b: u64) -> (r: u64)
    ensures
        r == mul_bits(a, b),
{
    (Double::from_bits(a as u128)
        * Double::from_bits(b as u128)).value.to_bits() as u64
}

/// Relies on rustc_apfloat: IEEE-754 double division.
#[verifier::external_body]
pub(crate) fn ext_div(a: u64, b: u64) -> (r: u64)
    ensures
        r == div_bits(a, b),
{
    (Double::from_bits(a as u128)
        / Double::from_bits(b as u128)).value.to_bits() as u64
}

/// Relies on rustc_apfloat `c_fmod`: the remainder with the sign of the
/// dividend, as the `%` operator of Rust computes it on doubles.
#[verifier::external_body]
pub(crate) fn ext_fmod(a: u64, b: u64) -> (r: u64)
    ensures
        r == fmod_bits(a, b),
{
    Double::from_bits(a as u128).c_fmod(
        Double::from_bits(b as u128),
    ).value.to_bits() as u64
}

/// Relies on rustc_apfloat `from_str`: correctly rounded decimal-to-double
/// conversion, agreeing with `f64::from_str` on the plain decimal forms
/// (the only forms the interpreter hands it).
#[verifier::external_body]
pub(crate) fn ext_parse(s: &str) -> (r: Option<u64>)
    requires
        crate::text::is_decimal_literal(s@),
    ensures
        r == Some(parsed_bits(s@)),
{
    s.parse::<Double>().map(|d| d.to_bits() as u64).ok()
}

/// Relies on rustc_apfloat `Display`: a decimal rendering of the value with
/// enough digits to identify it.
#[verifier::external_body]
pub(crate) fn ext_format(b: u64) -> (r: String)
    ensures
        r@ == formatted_bits(b),
{
    format!("{}", Double::from_bits(b as u128))
}

pub uninterp spec fn fmt_prec_bits(b: u64, p: usize) -> Seq<char>;

/// Relies on rustc_apfloat `Display` with an explicit precision: a decimal
/// rendering of the value with `p` significant digits. A double needs at
/// most 17, and the formatter's internal digit arithmetic is only exercised
/// within that bound.
#[verifier::external_body]
pub(crate) fn ext_format_prec(b: u64, p: usize) -> (r: String)
    requires
        1 <= p <= 17,
    ensures
        r@ == fmt_prec_bits(b, p),
{
    format!("{:.*}", p, Double::from_bits(b as u128))
}

/// Relies on rand: a machine integer drawn uniformly at random.
#[verifier::external_body]
pub(crate) fn ext_random_u32() -> (r: u32)
    ensures
        r <= u32::MAX,
{
    rand::random::<u32>()
}

// ---------------------------------------------------------------------
// Transcendental functions through astro-float.
//
// A finite nonzero double is carried to astro-float as a mantissa word
// with the highest bit set and a binary exponent: the value is
// (m / 2^64) * 2^e. The result comes back in the same form, classified as
// a value, an infinity or a NaN, and is rounded into an IEEE-754 pattern
// by verified code below.
// ---------------------------------------------------------------------

pub uninterp spec fn sqrt_parts(neg: bool, m: u64, e: i32) -> (u8, bool, u64, i32);

pub uninterp spec fn ln_parts(neg: bool, m: u64, e: i32) -> (u8, bool, u64, i32);

pub uninterp spec fn log10_parts(neg: bool, m: u64, e: i32) -> (u8, bool, u64, i32);

pub uninterp spec fn sin_parts(neg: bool, m: u64, e: i32) -> (u8, bool, u64, i32);

pub uninterp spec fn cos_parts(neg: bool, m: u64, e: i32) -> (u8, bool, u64, i32);

pub uninterp spec fn tan_parts(neg: bool, m: u64, e: i32) -> (u8, bool, u64, i32);

pub uninterp spec fn asin_parts(neg: bool, m: u64, e: i32) -> (u8, bool, u64, i32);

pub uninterp spec fn acos_parts(neg: bool, m: u64, e: i32) -> (u8, bool, u64, i32);

pub uninterp spec fn atan_parts(neg: bool, m: u64, e: i32) -> (u8, bool, u64, i32);

pub uninterp spec fn pow_parts(na: bool, ma: u64, ea: i32, nb: bool, mb: u64, eb: i32) -> (
    u8,
    bool,
    u64,
    i32,
);

/// Relies on astro-float `sqrt` at 64-bit precision, round to even.
#[verifier::external_body]
pub(crate) fn ext_sqrt(neg: bool, m: u64, e: i32) -> (r: (u8, bool, u64, i32))
    ensures
        r == sqrt_parts(neg, m, e),
{
    let s = if neg { Sign::Neg } else { Sign::Pos };
    let x = BigFloat::from_raw_parts(&[m], 64, s, e, false);
    let r = x.sqrt(64, RoundingMode::ToEven);
    match r.as_raw_parts() {
        Some(p) => (0u8, matches!(p.2, Sign::Neg), p.0.last().copied().unwrap_or(0), p.3),
        None => (if r.is_inf() { 1u8 } else { 2u8 }, r.is_inf_neg(), 0u64, 0i32),
    }
}

/// Relies on astro-float `ln` at 64-bit precision, round to even.
#[verifier::external_body]
pub(crate) fn ext_ln(neg: bool, m: u64, e: i32) -> (r: (u8, bool, u64, i32))
    ensures
        r == ln_parts(neg, m, e),
{
    let s = if neg { Sign::Neg } else { Sign::Pos };
    let x = BigFloat::from_raw_parts(&[m], 64, s, e, false);
    let r = match Consts::new() { Ok(mut cc) => x.ln(64, RoundingMode::ToEven, &mut cc), Err(_) => NAN };
    match r.as_raw_parts() {
        Some(p) => (0u8, matches!(p.2, Sign::Neg), p.0.last().copied().unwrap_or(0), p.3),
        None => (if r.is_inf() { 1u8 } else { 2u8 }, r.is_inf_neg(), 0u64, 0i32),
    }
}

/// Relies on astro-float `log10` at 64-bit precision, round to even.
#[verifier::external_body]
pub(crate) fn ext_log10(neg: bool, m: u64, e: i32) -> (r: (u8, bool, u64, i32))
    ensures
        r == log10_parts(neg, m, e),
{
    let s = if neg { Sign::Neg } else { Sign::Pos };
    let x = BigFloat::from_raw_parts(&[m], 64, s, e, false);
    let r = match Consts::new() { Ok(mut cc) => x.log10(64, RoundingMode::ToEven, &mut cc), Err(_) => NAN };
    match r.as_raw_parts() {
        Some(p) => (0u8, matches!(p.2, Sign::Neg), p.0.last().copied().unwrap_or(0), p.3),
        None => (if r.is_inf() { 1u8 } else { 2u8 }, r.is_inf_neg(), 0u64, 0i32),
    }
}

/// Relies on astro-float `sin` at 64-bit precision, round to even.
#[verifier::external_body]
pub(crate) fn ext_sin(neg: bool, m: u64, e: i32) -> (r: (u8, bool, u64, i32))
    ensures
        r == sin_parts(neg, m, e),
{
    let s = if neg { Sign::Neg } else { Sign::Pos };
    let x = BigFloat::from_raw_parts(&[m], 64, s, e, false);
    let r = match Consts::new() { Ok(mut cc) => x.sin(64, RoundingMode::ToEven, &mut cc), Err(_) => NAN };
    match r.as_raw_parts() {
        Some(p) => (0u8, matches!(p.2, Sign::Neg), p.0.last().copied().unwrap_or(0), p.3),
        None => (if r.is_inf() { 1u8 } else { 2u8 }, r.is_inf_neg(), 0u64, 0i32),
    }
}

/// Relies on astro-float `cos` at 64-bit precision, round to even.
#[verifier::external_body]
pub(crate) fn ext_cos(neg: bool, m: u64, e: i32) -> (r: (u8, bool, u64, i32))
    ensures
        r == cos_parts(neg, m, e),
{
    let s = if neg { Sign::Neg } else { Sign::Pos };
    let x = BigFloat::from_raw_parts(&[m], 64, s, e, false);
    let r = match Consts::new() { Ok(mut cc) => x.cos(64, RoundingMode::ToEven, &mut cc), Err(_) => NAN };
    match r.as_raw_parts() {
        Some(p) => (0u8, matches!(p.2, Sign::Neg), p.0.last().copied().unwrap_or(0), p.3),
        None => (if r.is_inf() { 1u8 } else { 2u8 }, r.is_inf_neg(), 0u64, 0i32),
    }
}

/// Relies on astro-float `tan` at 64-bit precision, round to even.
#[verifier::external_body]
pub(crate) fn ext_tan(neg: bool, m: u64, e: i32) -> (r: (u8, bool, u64, i32))
    ensures
        r == tan_parts(neg, m, e),
{
    let s = if neg { Sign::Neg } else { Sign::Pos };
    let x = BigFloat::from_raw_parts(&[m], 64, s, e, false);
    let r = match Consts::new() { Ok(mut cc) => x.tan(64, RoundingMode::ToEven, &mut cc), Err(_) => NAN };
    match r.as_raw_parts() {
        Some(p) => (0u8, matches!(p.2, Sign::Neg), p.0.last().copied().unwrap_or(0), p.3),
        None => (if r.is_inf() { 1u8 } else { 2u8 }, r.is_inf_neg(), 0u64, 0i32),
    }
}

/// Relies on astro-float `asin` at 64-bit precision, round to even.
#[verifier::external_body]
pub(crate) fn ext_asin(neg: bool, m: u64, e: i32) -> (r: (u8, bool, u64, i32))
    ensures
        r == asin_parts(neg, m, e),
{
    let s = if neg { Sign::Neg } else { Sign::Pos };
    let x = BigFloat::from_raw_parts(&[m], 64, s, e, false);
    let r = match Consts::new() { Ok(mut cc) => x.asin(64, RoundingMode::ToEven, &mut cc), Err(_) => NAN };
    match r.as_raw_parts() {
        Some(p) => (0u8, matches!(p.2, Sign::Neg), p.0.last().copied().unwrap_or(0), p.3),
        None => (if r.is_inf() { 1u8 } else { 2u8 }, r.is_inf_neg(), 0u64, 0i32),
    }
}

/// Relies on astro-float `acos` at 64-bit precision, round to even.
#[verifier::external_body]
pub(crate) fn ext_acos(neg: bool, m: u64, e: i32) -> (r: (u8, bool, u64, i32))
    ensures
        r == acos_parts(neg, m, e),
{
    let s = if neg { Sign::Neg } else { Sign::Pos };
    let x = BigFloat::from_raw_parts(&[m], 64, s, e, false);
    let r = match Consts::new() { Ok(mut cc) => x.acos(64, RoundingMode::ToEven, &mut cc), Err(_) => NAN };
    match r.as_raw_parts() {
        Some(p) => (0u8, matches!(p.2, Sign::Neg), p.0.last().copied().unwrap_or(0), p.3),
        None => (if r.is_inf() { 1u8 } else { 2u8 }, r.is_inf_neg(), 0u64, 0i32),
    }
}

/// Relies on astro-float `atan` at 64-bit precision, round to even.
#[verifier::external_body]
pub(crate) fn ext_atan(neg: bool, m: u64, e: i32) -> (r: (u8, bool, u64, i32))
    ensures
        r == atan_parts(neg, m, e),
{
    let s = if neg { Sign::Neg } else { Sign::Pos };
    let x = BigFloat::from_raw_parts(&[m], 64, s, e, false);
    let r = match Consts::new() { Ok(mut cc) => x.atan(64, RoundingMode::ToEven, &mut cc), Err(_) => NAN };
    match r.as_raw_parts() {
        Some(p) => (0u8, matches!(p.2, Sign::Neg), p.0.last().copied().unwrap_or(0), p.3),
        None => (if r.is_inf() { 1u8 } else { 2u8 }, r.is_inf_neg(), 0u64, 0i32),
    }
}

/// Relies on astro-float `pow` at 64-bit precision, round to even.
#[verifier::external_body]
pub(crate) fn ext_pow(na: bool, ma: u64, ea: i32, nb: bool, mb: u64, eb: i32) -> (r: (
    u8,
    bool,
    u64,
    i32,
))
    ensures
        r == pow_parts(na, ma, ea, nb, mb, eb),
{
    let sa = if na { Sign::Neg } else { Sign::Pos };
    let sb = if nb { Sign::Neg } else { Sign::Pos };
    let x = BigFloat::from_raw_parts(&[ma], 64, sa, ea, false);
    let y = BigFloat::from_raw_parts(&[mb], 64, sb, eb, false);
    let r = match Consts::new() { Ok(mut cc) => x.pow(&y, 64, RoundingMode::ToEven, &mut cc), Err(_) => NAN };
    match r.as_raw_parts() {
        Some(p) => (0u8, matches!(p.2, Sign::Neg), p.0.last().copied().unwrap_or(0), p.3),
        None => (if r.is_inf() { 1u8 } else { 2u8 }, r.is_inf_neg(), 0u64, 0i32),
    }
}


// ---------------------------------------------------------------------
// Verified conversion between IEEE-754 patterns and mantissa/exponent
// parts, and the public transcendental operations built on the wrappers.
// ---------------------------------------------------------------------

/// A finite nonzero pattern as astro-float parts: class 0, the sign, the
/// mantissa word with its highest bit set, and the binary exponent of the
/// value read as `(m / 2^64) * 2^e`.
pub open spec fn unpack_b(b: u64) -> (u8, bool, u64, i32) {
    let e = crate::bits::biased_exp_of(b);
    let f = crate::bits::frac_of(b);
    let neg = crate::bits::sign_of(b);
    if e == 0x7ff {
        if f != 0 {
            (2u8, neg, 0u64, 0i32)
        } else {
            (1u8, neg, 0u64, 0i32)
        }
    } else if e == 0 && f == 0 {
        (3u8, neg, 0u64, 0i32)
    } else if e > 0 {
        (0u8, neg, ((1u64 << 52) | f) << 11, ((e - 1022) as int) as i32)
    } else {
        let k = crate::bits::ilog2_b(f);
        (0u8, neg, f << ((63 - k) as u64), ((k - 1073) as int) as i32)
    }
}

pub fn f64_unpack(b: u64) -> (r: (u8, bool, u64, i32))
    ensures
        r == unpack_b(b),
{
    let e: u64 = (b >> 52) & 0x7ff;
    let f: u64 = b & crate::bits::FRAC_MASK;
    let neg: bool = b & crate::bits::SIGN_MASK == crate::bits::SIGN_MASK;
    if e == 0x7ff {
        if f != 0 {
            (2u8, neg, 0u64, 0i32)
        } else {
            (1u8, neg, 0u64, 0i32)
        }
    } else if e == 0 && f == 0 {
        (3u8, neg, 0u64, 0i32)
    } else if e > 0 {
        proof {
            assert(((b >> 52) & 0x7ff) <= 0x7ff) by (bit_vector);
        }
        (0u8, neg, ((1u64 << 52) | f) << 11, (e as i32) - 1022)
    } else {
        let k: u64 = crate::bits::f64_ilog2(f);
        (0u8, neg, f << (63 - k), (k as i32) - 1073)
    }
}

/// Rounds normalized parts into the nearest IEEE-754 pattern, ties to
/// even: class 1 is an infinity, class 2 a NaN, class 3 a zero. `ef` below
/// is the would-be IEEE exponent field; values past the top become the
/// infinity, values at or below zero round into the subnormal range.
pub open spec fn pack_b(cls: u8, neg: bool, m0: u64, e0: i32) -> u64 {
    let s: u64 = if neg {
        crate::bits::SIGN_MASK
    } else {
        0u64
    };
    if cls == 2 {
        crate::bits::NAN_BITS
    } else if cls == 1 {
        s | crate::bits::INF_BITS
    } else if cls != 0 || m0 == 0 {
        s
    } else {
        let z = (63 - crate::bits::ilog2_b(m0)) as u64;
        let m = m0 << z;
        let ef = e0 - z + 1022;
        if ef >= 2047 {
            s | crate::bits::INF_BITS
        } else if ef >= 1 {
            pack_normal_b(s, m, ef)
        } else {
            pack_sub_b(s, m, ef)
        }
    }
}

pub open spec fn pack_normal_b(s: u64, m: u64, ef: int) -> u64 {
    let keep = m >> 11;
    let rest = m & 0x7ff;
    let up = rest > 0x400 || (rest == 0x400 && keep & 1 == 1);
    let keep2 = if up {
        (keep + 1) as u64
    } else {
        keep
    };
    if keep2 == 1u64 << 53 {
        if ef + 1 >= 2047 {
            s | crate::bits::INF_BITS
        } else {
            s | (((ef + 1) as u64) << 52)
        }
    } else {
        s | ((ef as u64) << 52) | (keep2 & crate::bits::FRAC_MASK)
    }
}

pub open spec fn pack_sub_b(s: u64, m: u64, ef: int) -> u64 {
    if 12 - ef > 64 {
        s
    } else if 12 - ef == 64 {
        if m > crate::bits::SIGN_MASK {
            s | 1
        } else {
            s
        }
    } else {
        let drop = (12 - ef) as u64;
        let keep = m >> drop;
        let rest = m & (((1u64 << drop) - 1) as u64);
        let half = 1u64 << ((drop - 1) as u64);
        let up = rest > half || (rest == half && keep & 1 == 1);
        let keep2 = if up {
            (keep + 1) as u64
        } else {
            keep
        };
        s | keep2
    }
}

pub fn f64_pack(cls: u8, neg: bool, m0: u64, e0: i32) -> (r: u64)
    ensures
        r == pack_b(cls, neg, m0, e0),
{
    let s: u64 = if neg {
        crate::bits::SIGN_MASK
    } else {
        0u64
    };
    if cls == 2 {
        crate::bits::NAN_BITS
    } else if cls == 1 {
        s | crate::bits::INF_BITS
    } else if cls != 0 || m0 == 0 {
        s
    } else {
        let k: u64 = crate::bits::f64_ilog2(m0);
        let z: u64 = 63 - k;
        let m: u64 = m0 << z;
        let ef: i64 = (e0 as i64) - (z as i64) + 1022;
        if ef >= 2047 {
            s | crate::bits::INF_BITS
        } else if ef >= 1 {
            let keep: u64 = m >> 11;
            let rest: u64 = m & 0x7ff;
            proof {
                assert(m >> 11 <= 0x001f_ffff_ffff_ffffu64) by (bit_vector);
            }
            let up: bool = rest > 0x400 || (rest == 0x400 && keep & 1 == 1);
            let keep2: u64 = if up {
                keep + 1
            } else {
                keep
            };
            if keep2 == 1u64 << 53 {
                if ef + 1 >= 2047 {
                    s | crate::bits::INF_BITS
                } else {
                    s | (((ef + 1) as u64) << 52)
                }
            } else {
                s | ((ef as u64) << 52) | (keep2 & crate::bits::FRAC_MASK)
            }
        } else {
            if 12 - ef > 64 {
                s
            } else if 12 - ef == 64 {
                if m > crate::bits::SIGN_MASK {
                    s | 1
                } else {
                    s
                }
            } else {
                let drop: u64 = (12 - ef) as u64;
                proof {
                    assert(12 <= drop <= 63);
                    assert(1u64 << drop >= 1 && (m >> drop) <= 0x0010_0000_0000_0000u64 && (1u64
                        << ((drop - 1) as u64)) >= 1) by (bit_vector)
                        requires
                            12 <= drop <= 63,
                    ;
                }
                let keep: u64 = m >> drop;
                let rest: u64 = m & ((1u64 << drop) - 1);
                let half: u64 = 1u64 << (drop - 1);
                let up: bool = rest > half || (rest == half && keep & 1 == 1);
                let keep2: u64 = if up {
                    keep + 1
                } else {
                    keep
                };
                s | keep2
            }
        }
    }
}

pub open spec fn pack4(t: (u8, bool, u64, i32)) -> u64 {
    pack_b(t.0, t.1, t.2, t.3)
}

pub open spec fn up_neg(b: u64) -> bool {
    unpack_b(b).1
}

pub open spec fn up_m(b: u64) -> u64 {
    unpack_b(b).2
}

pub open spec fn up_e(b: u64) -> i32 {
    unpack_b(b).3
}

/// The square root, with the IEEE-754 special cases of `f64::sqrt`.
pub open spec fn sqrt_bits(x: u64) -> u64 {
    if crate::bits::is_nan_b(x) {
        crate::bits::NAN_BITS
    } else if crate::bits::is_zero_b(x) {
        x
    } else if crate::bits::is_inf_b(x) {
        if crate::bits::sign_of(x) {
            crate::bits::NAN_BITS
        } else {
            crate::bits::INF_BITS
        }
    } else {
        pack4(sqrt_parts(up_neg(x), up_m(x), up_e(x)))
    }
}

pub fn num_sqrt(x: u64) -> (r: u64)
    ensures
        r == sqrt_bits(x),
{
    if crate::bits::f64_is_nan(x) {
        crate::bits::NAN_BITS
    } else if x & crate::bits::MAG_MASK == 0 {
        x
    } else if !crate::bits::f64_is_finite(x) {
        if x & crate::bits::SIGN_MASK == crate::bits::SIGN_MASK {
            crate::bits::NAN_BITS
        } else {
            crate::bits::INF_BITS
        }
    } else {
        let p = f64_unpack(x);
        let t = ext_sqrt(p.1, p.2, p.3);
        f64_pack(t.0, t.1, t.2, t.3)
    }
}

/// The natural logarithm, with the special cases of `f64::ln`: zero gives
/// negative infinity, a negative value gives NaN.
pub open spec fn ln_bits(x: u64) -> u64 {
    if crate::bits::is_nan_b(x) {
        crate::bits::NAN_BITS
    } else if crate::bits::is_zero_b(x) {
        NEG_INF_BITS
    } else if crate::bits::is_inf_b(x) {
        if crate::bits::sign_of(x) {
            crate::bits::NAN_BITS
        } else {
            crate::bits::INF_BITS
        }
    } else {
        pack4(ln_parts(up_neg(x), up_m(x), up_e(x)))
    }
}

pub fn num_ln(x: u64) -> (r: u64)
    ensures
        r == ln_bits(x),
{
    if crate::bits::f64_is_nan(x) {
        crate::bits::NAN_BITS
    } else if x & crate::bits::MAG_MASK == 0 {
        NEG_INF_BITS
    } else if !crate::bits::f64_is_finite(x) {
        if x & crate::bits::SIGN_MASK == crate::bits::SIGN_MASK {
            crate::bits::NAN_BITS
        } else {
            crate::bits::INF_BITS
        }
    } else {
        let p = f64_unpack(x);
        let t = ext_ln(p.1, p.2, p.3);
        f64_pack(t.0, t.1, t.2, t.3)
    }
}

/// The base-10 logarithm, with the special cases of `f64::log10`.
pub open spec fn log10_bits(x: u64) -> u64 {
    if crate::bits::is_nan_b(x) {
        crate::bits::NAN_BITS
    } else if crate::bits::is_zero_b(x) {
        NEG_INF_BITS
    } else if crate::bits::is_inf_b(x) {
        if crate::bits::sign_of(x) {
            crate::bits::NAN_BITS
        } else {
            crate::bits::INF_BITS
        }
    } else {
        pack4(log10_parts(up_neg(x), up_m(x), up_e(x)))
    }
}

pub fn num_log10(x: u64) -> (r: u64)
    ensures
        r == log10_bits(x),
{
    if crate::bits::f64_is_nan(x) {
        crate::bits::NAN_BITS
    } else if x & crate::bits::MAG_MASK == 0 {
        NEG_INF_BITS
    } else if !crate::bits::f64_is_finite(x) {
        if x & crate::bits::SIGN_MASK == crate::bits::SIGN_MASK {
            crate::bits::NAN_BITS
        } else {
            crate::bits::INF_BITS
        }
    } else {
        let p = f64_unpack(x);
        let t = ext_log10(p.1, p.2, p.3);
        f64_pack(t.0, t.1, t.2, t.3)
    }
}

/// The sine of a value in radians: NaN for an infinite or NaN argument,
/// the argument itself at zero.
pub open spec fn sin_bits(x: u64) -> u64 {
    if !crate::bits::is_finite_b(x) {
        crate::bits::NAN_BITS
    } else if crate::bits::is_zero_b(x) {
        x
    } else {
        pack4(sin_parts(up_neg(x), up_m(x), up_e(x)))
    }
}

pub fn num_sin(x: u64) -> (r: u64)
    ensures
        r == sin_bits(x),
{
    if !crate::bits::f64_is_finite(x) {
        crate::bits::NAN_BITS
    } else if x & crate::bits::MAG_MASK == 0 {
        x
    } else {
        let p = f64_unpack(x);
        let t = ext_sin(p.1, p.2, p.3);
        f64_pack(t.0, t.1, t.2, t.3)
    }
}

/// The cosine of a value in radians.
pub open spec fn cos_bits(x: u64) -> u64 {
    if !crate::bits::is_finite_b(x) {
        crate::bits::NAN_BITS
    } else if crate::bits::is_zero_b(x) {
        crate::bits::ONE_BITS
    } else {
        pack4(cos_parts(up_neg(x), up_m(x), up_e(x)))
    }
}

pub fn num_cos(x: u64) -> (r: u64)
    ensures
        r == cos_bits(x),
{
    if !crate::bits::f64_is_finite(x) {
        crate::bits::NAN_BITS
    } else if x & crate::bits::MAG_MASK == 0 {
        crate::bits::ONE_BITS
    } else {
        let p = f64_unpack(x);
        let t = ext_cos(p.1, p.2, p.3);
        f64_pack(t.0, t.1, t.2, t.3)
    }
}

/// The tangent of a value in radians.
pub open spec fn tan_bits(x: u64) -> u64 {
    if !crate::bits::is_finite_b(x) {
        crate::bits::NAN_BITS
    } else if crate::bits::is_zero_b(x) {
        x
    } else {
        pack4(tan_parts(up_neg(x), up_m(x), up_e(x)))
    }
}

pub fn num_tan(x: u64) -> (r: u64)
    ensures
        r == tan_bits(x),
{
    if !crate::bits::f64_is_finite(x) {
        crate::bits::NAN_BITS
    } else if x & crate::bits::MAG_MASK == 0 {
        x
    } else {
        let p = f64_unpack(x);
        let t = ext_tan(p.1, p.2, p.3);
        f64_pack(t.0, t.1, t.2, t.3)
    }
}

/// The arcsine in radians: NaN outside [-1, 1] and for NaN or infinite
/// arguments.
pub open spec fn asin_bits(x: u64) -> u64 {
    if !crate::bits::is_finite_b(x) {
        crate::bits::NAN_BITS
    } else if crate::bits::is_zero_b(x) {
        x
    } else {
        pack4(asin_parts(up_neg(x), up_m(x), up_e(x)))
    }
}

pub fn num_asin(x: u64) -> (r: u64)
    ensures
        r == asin_bits(x),
{
    if !crate::bits::f64_is_finite(x) {
        crate::bits::NAN_BITS
    } else if x & crate::bits::MAG_MASK == 0 {
        x
    } else {
        let p = f64_unpack(x);
        let t = ext_asin(p.1, p.2, p.3);
        f64_pack(t.0, t.1, t.2, t.3)
    }
}

/// The arccosine in radians.
pub open spec fn acos_bits(x: u64) -> u64 {
    if !crate::bits::is_finite_b(x) {
        crate::bits::NAN_BITS
    } else if crate::bits::is_zero_b(x) {
        HALF_PI_BITS
    } else {
        pack4(acos_parts(up_neg(x), up_m(x), up_e(x)))
    }
}

pub fn num_acos(x: u64) -> (r: u64)
    ensures
        r == acos_bits(x),
{
    if !crate::bits::f64_is_finite(x) {
        crate::bits::NAN_BITS
    } else if x & crate::bits::MAG_MASK == 0 {
        HALF_PI_BITS
    } else {
        let p = f64_unpack(x);
        let t = ext_acos(p.1, p.2, p.3);
        f64_pack(t.0, t.1, t.2, t.3)
    }
}

/// The arctangent in radians: an infinity gives half pi with its sign.
pub open spec fn atan_bits(x: u64) -> u64 {
    if crate::bits::is_nan_b(x) {
        crate::bits::NAN_BITS
    } else if crate::bits::is_inf_b(x) {
        if crate::bits::sign_of(x) {
            crate::bits::neg_b(HALF_PI_BITS)
        } else {
            HALF_PI_BITS
        }
    } else if crate::bits::is_zero_b(x) {
        x
    } else {
        pack4(atan_parts(up_neg(x), up_m(x), up_e(x)))
    }
}

pub fn num_atan(x: u64) -> (r: u64)
    ensures
        r == atan_bits(x),
{
    if crate::bits::f64_is_nan(x) {
        crate::bits::NAN_BITS
    } else if !crate::bits::f64_is_finite(x) {
        if x & crate::bits::SIGN_MASK == crate::bits::SIGN_MASK {
            crate::bits::f64_neg(HALF_PI_BITS)
        } else {
            HALF_PI_BITS
        }
    } else if x & crate::bits::MAG_MASK == 0 {
        x
    } else {
        let p = f64_unpack(x);
        let t = ext_atan(p.1, p.2, p.3);
        f64_pack(t.0, t.1, t.2, t.3)
    }
}


/// `x` raised to `y`, with the special-case table of IEEE-754 `pow` that
/// `f64::powf` follows: any base to the power zero is one, one to any
/// power is one, and a negative base demands an integral exponent.
pub open spec fn pow_bits(x: u64, y: u64) -> u64 {
    if crate::bits::is_zero_b(y) || x == crate::bits::ONE_BITS {
        crate::bits::ONE_BITS
    } else if crate::bits::is_nan_b(x) || crate::bits::is_nan_b(y) {
        crate::bits::NAN_BITS
    } else if crate::bits::is_inf_b(y) {
        if crate::bits::mag_of(x) == crate::bits::ONE_BITS {
            crate::bits::ONE_BITS
        } else if (crate::bits::mag_of(x) < crate::bits::ONE_BITS) == !crate::bits::sign_of(y) {
            crate::bits::ZERO_BITS
        } else {
            crate::bits::INF_BITS
        }
    } else if crate::bits::is_inf_b(x) {
        if !crate::bits::sign_of(x) {
            if crate::bits::sign_of(y) {
                crate::bits::ZERO_BITS
            } else {
                crate::bits::INF_BITS
            }
        } else if crate::bits::sign_of(y) {
            if crate::bits::is_odd_int_b(y) {
                crate::bits::SIGN_MASK
            } else {
                crate::bits::ZERO_BITS
            }
        } else if crate::bits::is_odd_int_b(y) {
            NEG_INF_BITS
        } else {
            crate::bits::INF_BITS
        }
    } else if crate::bits::is_zero_b(x) {
        if crate::bits::sign_of(y) {
            if crate::bits::is_odd_int_b(y) && crate::bits::sign_of(x) {
                NEG_INF_BITS
            } else {
                crate::bits::INF_BITS
            }
        } else if crate::bits::is_odd_int_b(y) && crate::bits::sign_of(x) {
            crate::bits::SIGN_MASK
        } else {
            crate::bits::ZERO_BITS
        }
    } else if crate::bits::sign_of(x) {
        if !crate::bits::is_integral_b(y) {
            crate::bits::NAN_BITS
        } else {
            let ax = crate::bits::abs_b(x);
            let r = pack4(
                pow_parts(up_neg(ax), up_m(ax), up_e(ax), up_neg(y), up_m(y), up_e(y)),
            );
            if crate::bits::is_odd_int_b(y) {
                crate::bits::neg_b(r)
            } else {
                r
            }
        }
    } else {
        pack4(pow_parts(up_neg(x), up_m(x), up_e(x), up_neg(y), up_m(y), up_e(y)))
    }
}

pub fn num_pow(x: u64, y: u64) -> (r: u64)
    ensures
        r == pow_bits(x, y),
{
    if y & crate::bits::MAG_MASK == 0 || x == crate::bits::ONE_BITS {
        crate::bits::ONE_BITS
    } else if crate::bits::f64_is_nan(x) || crate::bits::f64_is_nan(y) {
        crate::bits::NAN_BITS
    } else if !crate::bits::f64_is_finite(y) {
        if x & crate::bits::MAG_MASK == crate::bits::ONE_BITS {
            crate::bits::ONE_BITS
        } else if ((x & crate::bits::MAG_MASK) < crate::bits::ONE_BITS) == !(y
            & crate::bits::SIGN_MASK == crate::bits::SIGN_MASK) {
            crate::bits::ZERO_BITS
        } else {
            crate::bits::INF_BITS
        }
    } else if !crate::bits::f64_is_finite(x) {
        let ny: bool = y & crate::bits::SIGN_MASK == crate::bits::SIGN_MASK;
        if !(x & crate::bits::SIGN_MASK == crate::bits::SIGN_MASK) {
            if ny {
                crate::bits::ZERO_BITS
            } else {
                crate::bits::INF_BITS
            }
        } else if ny {
            if crate::bits::f64_is_odd_int(y) {
                crate::bits::SIGN_MASK
            } else {
                crate::bits::ZERO_BITS
            }
        } else if crate::bits::f64_is_odd_int(y) {
            NEG_INF_BITS
        } else {
            crate::bits::INF_BITS
        }
    } else if x & crate::bits::MAG_MASK == 0 {
        let nx: bool = x & crate::bits::SIGN_MASK == crate::bits::SIGN_MASK;
        if y & crate::bits::SIGN_MASK == crate::bits::SIGN_MASK {
            if crate::bits::f64_is_odd_int(y) && nx {
                NEG_INF_BITS
            } else {
                crate::bits::INF_BITS
            }
        } else if crate::bits::f64_is_odd_int(y) && nx {
            crate::bits::SIGN_MASK
        } else {
            crate::bits::ZERO_BITS
        }
    } else if x & crate::bits::SIGN_MASK == crate::bits::SIGN_MASK {
        if !crate::bits::f64_is_integral(y) {
            crate::bits::NAN_BITS
        } else {
            let ax: u64 = crate::bits::f64_abs(x);
            let pa = f64_unpack(ax);
            let pb = f64_unpack(y);
            let t = ext_pow(pa.1, pa.2, pa.3, pb.1, pb.2, pb.3);
            let r0 = f64_pack(t.0, t.1, t.2, t.3);
            if crate::bits::f64_is_odd_int(y) {
                crate::bits::f64_neg(r0)
            } else {
                r0
            }
        }
    } else {
        let pa = f64_unpack(x);
        let pb = f64_unpack(y);
        let t = ext_pow(pa.1, pa.2, pa.3, pb.1, pb.2, pb.3);
        f64_pack(t.0, t.1, t.2, t.3)
    }
}

/// The angle of the point `(x, y)` in radians, following the special-case
/// table of `f64::atan2`; the general case is the arctangent of `y / x`
/// shifted by pi according to the quadrant.
pub open spec fn atan2_bits(y: u64, x: u64) -> u64 {
    if crate::bits::is_nan_b(y) || crate::bits::is_nan_b(x) {
        crate::bits::NAN_BITS
    } else if crate::bits::is_zero_b(y) {
        if crate::bits::sign_of(x) {
            if crate::bits::sign_of(y) {
                crate::bits::neg_b(PI_BITS)
            } else {
                PI_BITS
            }
        } else {
            y
        }
    } else if crate::bits::is_zero_b(x) {
        if crate::bits::sign_of(y) {
            crate::bits::neg_b(HALF_PI_BITS)
        } else {
            HALF_PI_BITS
        }
    } else if crate::bits::is_inf_b(y) {
        let c = if crate::bits::is_inf_b(x) {
            if !crate::bits::sign_of(x) {
                QUARTER_PI_BITS
            } else {
                THREE_QUARTER_PI_BITS
            }
        } else {
            HALF_PI_BITS
        };
        if crate::bits::sign_of(y) {
            crate::bits::neg_b(c)
        } else {
            c
        }
    } else if crate::bits::is_inf_b(x) {
        if !crate::bits::sign_of(x) {
            if crate::bits::sign_of(y) {
                crate::bits::SIGN_MASK
            } else {
                crate::bits::ZERO_BITS
            }
        } else if crate::bits::sign_of(y) {
            crate::bits::neg_b(PI_BITS)
        } else {
            PI_BITS
        }
    } else {
        let t = atan_bits(div_bits(y, x));
        if !crate::bits::sign_of(x) {
            t
        } else if !crate::bits::sign_of(y) {
            add_bits(t, PI_BITS)
        } else {
            sub_bits(t, PI_BITS)
        }
    }
}

pub fn num_atan2(y: u64, x: u64) -> (r: u64)
    ensures
        r == atan2_bits(y, x),
{
    let ny: bool = y & crate::bits::SIGN_MASK == crate::bits::SIGN_MASK;
    let nx: bool = x & crate::bits::SIGN_MASK == crate::bits::SIGN_MASK;
    if crate::bits::f64_is_nan(y) || crate::bits::f64_is_nan(x) {
        crate::bits::NAN_BITS
    } else if y & crate::bits::MAG_MASK == 0 {
        if nx {
            if ny {
                crate::bits::f64_neg(PI_BITS)
            } else {
                PI_BITS
            }
        } else {
            y
        }
    } else if x & crate::bits::MAG_MASK == 0 {
        if ny {
            crate::bits::f64_neg(HALF_PI_BITS)
        } else {
            HALF_PI_BITS
        }
    } else if !crate::bits::f64_is_finite(y) {
        let c: u64 = if !crate::bits::f64_is_finite(x) {
            if !nx {
                QUARTER_PI_BITS
            } else {
                THREE_QUARTER_PI_BITS
            }
        } else {
            HALF_PI_BITS
        };
        if ny {
            crate::bits::f64_neg(c)
        } else {
            c
        }
    } else if !crate::bits::f64_is_finite(x) {
        if !nx {
            if ny {
                crate::bits::SIGN_MASK
            } else {
                crate::bits::ZERO_BITS
            }
        } else if ny {
            crate::bits::f64_neg(PI_BITS)
        } else {
            PI_BITS
        }
    } else {
        let t: u64 = num_atan(ext_div(y, x));
        if !nx {
            t
        } else if !ny {
            ext_add(t, PI_BITS)
        } else {
            ext_sub(t, PI_BITS)
        }
    }
}

/// A fresh sample in `[0, a)`: a random machine integer scaled into the
/// half-open unit interval and multiplied by `a`. The top draw is folded
/// onto zero, so the scale factor stays strictly below one and the closed
/// end is excluded. No two calls need agree.
pub fn num_rand(a: u64) -> (r: u64)
    ensures
        exists|n: u32|
            n < u32::MAX && r == mul_bits(
                #[trigger] div_bits(crate::bits::u64_to_bits(n as u64), U32_MAX_BITS),
                a,
            ),
{
    let drawn: u32 = ext_random_u32();
    let n: u32 = if drawn == u32::MAX {
        0
    } else {
        drawn
    };
    let nb: u64 = crate::bits::f64_from_u64(n as u64);
    let q: u64 = ext_div(nb, U32_MAX_BITS);
    let r: u64 = ext_mul(q, a);
    proof {
        assert(r == mul_bits(
            div_bits(crate::bits::u64_to_bits(n as u64), U32_MAX_BITS),
            a,
        ));
    }
    r
}

/// The fraction rendering: the fewest significant digits whose rendering
/// parses back to exactly the value, read off the outside formatter digit
/// count by digit count; a double always round-trips within 17 digits,
/// and if no rendering were to parse back, the formatter's full rendering
/// would stand.
pub open spec fn fmt_choice(b: u64, p: int) -> Seq<char>
    decreases 18 - p,
{
    if p > 17 {
        formatted_bits(b)
    } else if crate::text::is_decimal_literal(fmt_prec_bits(b, p as usize)) && parsed_bits(
        fmt_prec_bits(b, p as usize),
    ) == b {
        fmt_prec_bits(b, p as usize)
    } else {
        fmt_choice(b, p + 1)
    }
}

/// How the interpreter renders a number: `NaN`, `inf` and `-inf` as std
/// writes them, integral values within the signed 64-bit range as plain
/// decimal digits, and anything else as the shortest decimal that reads
/// back as exactly the value, laid out positionally with no exponent.
pub open spec fn num_display_b(b: u64) -> Seq<char> {
    if crate::bits::is_nan_b(b) {
        seq!['N', 'a', 'N']
    } else if crate::bits::is_inf_b(b) {
        if crate::bits::sign_of(b) {
            seq!['-', 'i', 'n', 'f']
        } else {
            seq!['i', 'n', 'f']
        }
    } else if crate::bits::is_zero_b(b) {
        if crate::bits::sign_of(b) {
            seq!['-', '0']
        } else {
            seq!['0']
        }
    } else if crate::bits::is_integral_b(b) && crate::bits::biased_exp_of(b) <= 1085 {
        crate::text::dec_digits_i64(crate::bits::trunc_i64_b(b))
    } else {
        crate::text::expand_positional(fmt_choice(b, 1))
    }
}

pub fn num_to_chars(b: u64) -> (r: Vec<char>)
    ensures
        r@ == num_display_b(b),
{
    let e: u64 = (b >> 52) & 0x7ff;
    if crate::bits::f64_is_nan(b) {
        let v: Vec<char> = vec!['N', 'a', 'N'];
        proof {
            assert(v@ == seq!['N', 'a', 'N']);
        }
        v
    } else if !crate::bits::f64_is_finite(b) {
        if b & crate::bits::SIGN_MASK == crate::bits::SIGN_MASK {
            let v: Vec<char> = vec!['-', 'i', 'n', 'f'];
            proof {
                assert(v@ == seq!['-', 'i', 'n', 'f']);
            }
            v
        } else {
            let v: Vec<char> = vec!['i', 'n', 'f'];
            proof {
                assert(v@ == seq!['i', 'n', 'f']);
            }
            v
        }
    } else if b & crate::bits::MAG_MASK == 0 {
        if b & crate::bits::SIGN_MASK == crate::bits::SIGN_MASK {
            let v: Vec<char> = vec!['-', '0'];
            proof {
                assert(v@ == seq!['-', '0']);
            }
            v
        } else {
            let v: Vec<char> = vec!['0'];
            proof {
                assert(v@ == seq!['0']);
            }
            v
        }
    } else if crate::bits::f64_is_integral(b) && e <= 1085 {
        crate::text::format_i64(crate::bits::f64_trunc_i64(b))
    } else {
        let mut p: usize = 1;
        while p <= 17
            invariant
                1 <= p <= 18,
                num_display_b(b) == crate::text::expand_positional(fmt_choice(b, p as int)),
                crate::bits::is_finite_b(b),
                !crate::bits::is_zero_b(b),
                !(crate::bits::is_integral_b(b) && crate::bits::biased_exp_of(b) <= 1085),
            decreases 18 - p,
        {
            let s = ext_format_prec(b, p);
            let cs = crate::text::chars_of(s.as_str());
            if crate::text::check_decimal_literal(&cs) {
                match ext_parse(s.as_str()) {
                    Some(b2) => {
                        if b2 == b {
                            return crate::text::expand_decimal(&cs);
                        }
                    },
                    None => {},
                }
            }
            p = p + 1;
        }
        let s = ext_format(b);
        let cs = crate::text::chars_of(s.as_str());
        crate::text::expand_decimal(&cs)
    }
}

/// What a program token denotes as a numeric literal: nothing when it
/// does not fit the float grammar, the special values for the `inf` and
/// `nan` words, and the parsed double for plain decimal forms.
pub open spec fn token_num(s: Seq<char>) -> Option<u64> {
    if !crate::text::is_float_literal(s) {
        None
    } else {
        let p: int = if s.len() > 0 && (s[0] == '+' || s[0] == '-') {
            1int
        } else {
            0int
        };
        let neg = s.len() > 0 && s[0] == '-';
        if crate::text::eq_ci(s.skip(p), seq!['i', 'n', 'f']) || crate::text::eq_ci(
            s.skip(p),
            seq!['i', 'n', 'f', 'i', 'n', 'i', 't', 'y'],
        ) {
            Some(
                if neg {
                    NEG_INF_BITS
                } else {
                    crate::bits::INF_BITS
                },
            )
        } else if crate::text::eq_ci(s.skip(p), seq!['n', 'a', 'n']) {
            Some(crate::bits::NAN_BITS)
        } else {
            Some(parsed_bits(s))
        }
    }
}

pub fn parse_num_token(cs: &Vec<char>) -> (r: Option<u64>)
    ensures
        r == token_num(cs@),
{
    if !crate::text::check_float_literal(cs) {
        return None;
    }
    let p: usize = if cs.len() > 0 && (cs[0] == '+' || cs[0] == '-') {
        1
    } else {
        0
    };
    let neg: bool = cs.len() > 0 && cs[0] == '-';
    let winf: Vec<char> = vec!['i', 'n', 'f'];
    let winfinity: Vec<char> = vec!['i', 'n', 'f', 'i', 'n', 'i', 't', 'y'];
    let wnan: Vec<char> = vec!['n', 'a', 'n'];
    proof {
        assert(winf@ == seq!['i', 'n', 'f']);
        assert(winfinity@ == seq!['i', 'n', 'f', 'i', 'n', 'i', 't', 'y']);
        assert(wnan@ == seq!['n', 'a', 'n']);
        assert(p <= cs@.len());
    }
    if crate::text::chars_eq_ci(cs, p, &winf) || crate::text::chars_eq_ci(cs, p, &winfinity) {
        Some(
            if neg {
                NEG_INF_BITS
            } else {
                crate::bits::INF_BITS
            },
        )
    } else if crate::text::chars_eq_ci(cs, p, &wnan) {
        Some(crate::bits::NAN_BITS)
    } else {
        let s = crate::text::string_from_chars(cs);
        ext_parse(s.as_str())
    }
}

} // verus!

