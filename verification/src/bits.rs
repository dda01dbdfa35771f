//! IEEE-754 double-precision values, handled as their 64-bit patterns.
//!
//! A pattern splits into a sign bit, an 11-bit biased exponent and a 52-bit
//! fraction. Everything the IEEE-754 standard pins down exactly at the bit
//! level is defined and verified here: classification, equality and
//! ordering, absolute value and negation, truncation to an integer,
//! floor and ceiling, the epsilon test the interpreter uses for integer
//! detection, and conversion from machine integers with round-to-nearest,
//! ties to even. Operations that round freshly computed real results
//! (addition, multiplication and so on) live in the `numext` module.

use vstd::prelude::*;

verus! {

pub const SIGN_MASK: u64 = 0x8000_0000_0000_0000;

pub const MAG_MASK: u64 = 0x7fff_ffff_ffff_ffff;

pub const FRAC_MASK: u64 = 0x000f_ffff_ffff_ffff;

/// Positive zero.
pub const ZERO_BITS: u64 = 0;

/// 1.0
pub const ONE_BITS: u64 = 0x3ff0_0000_0000_0000;

/// Positive infinity.
pub const INF_BITS: u64 = 0x7ff0_0000_0000_0000;

/// The canonical quiet NaN.
pub const NAN_BITS: u64 = 0x7ff8_0000_0000_0000;

/// 2^-52, the machine epsilon of a double.
pub const EPSILON_BITS: u64 = 0x3cb0_0000_0000_0000;

/// The largest double below 1.0, which is 1 - 2^-53.
pub const BELOW_ONE_BITS: u64 = 0x3fef_ffff_ffff_ffff;

pub open spec fn sign_of(b: u64) -> bool {
    b & SIGN_MASK == SIGN_MASK
}

pub open spec fn biased_exp_of(b: u64) -> u64 {
    (b >> 52) & 0x7ff
}

pub open spec fn frac_of(b: u64) -> u64 {
    b & FRAC_MASK
}

/// The pattern with the sign bit cleared: the magnitude of the value.
pub open spec fn mag_of(b: u64) -> u64 {
    b & MAG_MASK
}

pub open spec fn is_nan_b(b: u64) -> bool {
    biased_exp_of(b) == 0x7ff && frac_of(b) != 0
}

pub open spec fn is_inf_b(b: u64) -> bool {
    biased_exp_of(b) == 0x7ff && frac_of(b) == 0
}

pub open spec fn is_finite_b(b: u64) -> bool {
    biased_exp_of(b) != 0x7ff
}

pub open spec fn is_zero_b(b: u64) -> bool {
    mag_of(b) == 0
}

/// IEEE equality: NaN equals nothing, the two zeros are equal, and apart
/// from that equal values have equal patterns.
pub open spec fn num_eq_b(a: u64, b: u64) -> bool {
    &&& !is_nan_b(a)
    &&& !is_nan_b(b)
    &&& (a == b || (is_zero_b(a) && is_zero_b(b)))
}

/// IEEE `<`. For finite values of one sign the encoding is ordered like the
/// values, so the comparison reduces to a comparison of magnitudes.
pub open spec fn num_lt_b(a: u64, b: u64) -> bool {
    if is_nan_b(a) || is_nan_b(b) {
        false
    } else if is_zero_b(a) && is_zero_b(b) {
        false
    } else if sign_of(a) != sign_of(b) {
        sign_of(a)
    } else if !sign_of(a) {
        mag_of(a) < mag_of(b)
    } else {
        mag_of(b) < mag_of(a)
    }
}

pub open spec fn num_le_b(a: u64, b: u64) -> bool {
    num_lt_b(a, b) || num_eq_b(a, b)
}

pub open spec fn abs_b(b: u64) -> u64 {
    b & MAG_MASK
}

pub open spec fn neg_b(b: u64) -> u64 {
    b ^ SIGN_MASK
}

/// The interpreter's truth test: the magnitude exceeds machine epsilon.
pub open spec fn is_truthy_b(b: u64) -> bool {
    num_lt_b(EPSILON_BITS, abs_b(b))
}

/// The interpreter's falsehood test, `|x| < epsilon`. Not the negation of
/// `is_truthy_b`: NaN fails both.
pub open spec fn is_falsy_b(b: u64) -> bool {
    num_lt_b(abs_b(b), EPSILON_BITS)
}

pub fn f64_is_nan(b: u64) -> (r: bool)
    ensures
        r == is_nan_b(b),
{
    (b >> 52) & 0x7ff == 0x7ff && b & FRAC_MASK != 0
}

pub fn f64_is_finite(b: u64) -> (r: bool)
    ensures
        r == is_finite_b(b),
{
    (b >> 52) & 0x7ff != 0x7ff
}

pub fn f64_eq(a: u64, b: u64) -> (r: bool)
    ensures
        r == num_eq_b(a, b),
{
    if f64_is_nan(a) || f64_is_nan(b) {
        false
    } else {
        a == b || (a & MAG_MASK == 0 && b & MAG_MASK == 0)
    }
}

pub fn f64_lt(a: u64, b: u64) -> (r: bool)
    ensures
        r == num_lt_b(a, b),
{
    let sa: bool = a & SIGN_MASK == SIGN_MASK;
    let sb: bool = b & SIGN_MASK == SIGN_MASK;
    if f64_is_nan(a) || f64_is_nan(b) {
        false
    } else if a & MAG_MASK == 0 && b & MAG_MASK == 0 {
        false
    } else if sa != sb {
        sa
    } else if !sa {
        a & MAG_MASK < b & MAG_MASK
    } else {
        b & MAG_MASK < a & MAG_MASK
    }
}

pub fn f64_le(a: u64, b: u64) -> (r: bool)
    ensures
        r == num_le_b(a, b),
{
    f64_lt(a, b) || f64_eq(a, b)
}

pub fn f64_abs(b: u64) -> (r: u64)
    ensures
        r == abs_b(b),
{
    b & MAG_MASK
}

pub fn f64_neg(b: u64) -> (r: u64)
    ensures
        r == neg_b(b),
{
    b ^ SIGN_MASK
}

pub fn f64_is_truthy(b: u64) -> (r: bool)
    ensures
        r == is_truthy_b(b),
{
    f64_lt(EPSILON_BITS, f64_abs(b))
}

pub fn f64_is_falsy(b: u64) -> (r: bool)
    ensures
        r == is_falsy_b(b),
{
    f64_lt(f64_abs(b), EPSILON_BITS)
}

/// Rust's saturating `as i64` cast of a double: truncation toward zero,
/// saturation at the ends of the range, and 0 for NaN.
pub open spec fn trunc_i64_b(b: u64) -> i64 {
    let e = biased_exp_of(b);
    let f = frac_of(b);
    if e == 0x7ff {
        if f != 0 {
            0i64
        } else if sign_of(b) {
            i64::MIN
        } else {
            i64::MAX
        }
    } else if e < 1023 {
        0i64
    } else if e >= 1086 {
        if sign_of(b) {
            i64::MIN
        } else {
            i64::MAX
        }
    } else {
        let m = (1u64 << 52) | f;
        let mag = if e >= 1075 {
            m << ((e - 1075) as u64)
        } else {
            m >> ((1075 - e) as u64)
        };
        if sign_of(b) {
            (-(mag as int)) as i64
        } else {
            mag as i64
        }
    }
}

pub fn f64_trunc_i64(b: u64) -> (r: i64)
    ensures
        r == trunc_i64_b(b),
{
    let e: u64 = (b >> 52) & 0x7ff;
    let f: u64 = b & FRAC_MASK;
    let neg: bool = b & SIGN_MASK == SIGN_MASK;
    if e == 0x7ff {
        if f != 0 {
            0i64
        } else if neg {
            i64::MIN
        } else {
            i64::MAX
        }
    } else if e < 1023 {
        0i64
    } else if e >= 1086 {
        if neg {
            i64::MIN
        } else {
            i64::MAX
        }
    } else {
        let m: u64 = (1u64 << 52) | f;
        proof {
            assert(b & 0x000f_ffff_ffff_ffffu64 <= 0x000f_ffff_ffff_ffffu64) by (bit_vector);
        }
        let mag: u64 = if e >= 1075 {
            let sh: u64 = e - 1075;
            proof {
                assert(((1u64 << 52) | f) << sh < 0x8000_0000_0000_0000u64) by (bit_vector)
                    requires
                        f <= 0x000f_ffff_ffff_ffffu64 && sh <= 10,
                ;
            }
            m << sh
        } else {
            let sh: u64 = 1075 - e;
            proof {
                assert(((1u64 << 52) | f) >> sh < 0x8000_0000_0000_0000u64) by (bit_vector)
                    requires
                        f <= 0x000f_ffff_ffff_ffffu64,
                ;
            }
            m >> sh
        };
        assert(mag < 0x8000_0000_0000_0000u64);
        if neg {
            -(mag as i64)
        } else {
            mag as i64
        }
    }
}

/// The interpreter accepts a double as an integer when it is within machine
/// epsilon (2^-52, strictly) of the integer nearest to it, rounding halves
/// away from zero. At magnitude 1 and above the spacing of doubles is at
/// least 2^-52, so there the test accepts exactly the integral values; below
/// 1 it also accepts the doubles next to 0 and the largest double below 1.
pub open spec fn near_int_b(b: u64) -> bool {
    let e = biased_exp_of(b);
    if e == 0x7ff {
        false
    } else if e >= 1075 {
        true
    } else if e >= 1023 {
        b & (((1u64 << ((1075 - e) as u64)) - 1) as u64) == 0
    } else if e == 1022 {
        mag_of(b) == BELOW_ONE_BITS
    } else {
        mag_of(b) < EPSILON_BITS
    }
}

pub fn f64_near_int(b: u64) -> (r: bool)
    ensures
        r == near_int_b(b),
{
    let e: u64 = (b >> 52) & 0x7ff;
    if e == 0x7ff {
        false
    } else if e >= 1075 {
        true
    } else if e >= 1023 {
        let sh: u64 = 1075 - e;
        proof {
            assert(1u64 << sh >= 1) by (bit_vector)
                requires
                    sh <= 52,
            ;
        }
        b & ((1u64 << sh) - 1) == 0
    } else if e == 1022 {
        b & MAG_MASK == BELOW_ONE_BITS
    } else {
        b & MAG_MASK < EPSILON_BITS
    }
}

/// The largest integer not above the value, as IEEE-754 floor.
pub open spec fn floor_b(b: u64) -> u64 {
    let e = biased_exp_of(b);
    if e == 0x7ff || e >= 1075 || mag_of(b) == 0 {
        b
    } else if e >= 1023 {
        let sh = (1075 - e) as u64;
        let mask = ((1u64 << sh) - 1) as u64;
        if b & mask == 0 {
            b
        } else if !sign_of(b) {
            b & !mask
        } else {
            ((b & !mask) + (1u64 << sh)) as u64
        }
    } else if !sign_of(b) {
        ZERO_BITS
    } else {
        0xbff0_0000_0000_0000u64
    }
}

/// The smallest integer not below the value, as IEEE-754 ceiling. Note that
/// values in (-1, 0) give negative zero.
pub open spec fn ceil_b(b: u64) -> u64 {
    let e = biased_exp_of(b);
    if e == 0x7ff || e >= 1075 || mag_of(b) == 0 {
        b
    } else if e >= 1023 {
        let sh = (1075 - e) as u64;
        let mask = ((1u64 << sh) - 1) as u64;
        if b & mask == 0 {
            b
        } else if sign_of(b) {
            b & !mask
        } else {
            ((b & !mask) + (1u64 << sh)) as u64
        }
    } else if sign_of(b) {
        SIGN_MASK
    } else {
        ONE_BITS
    }
}

pub fn f64_floor(b: u64) -> (r: u64)
    ensures
        r == floor_b(b),
{
    let e: u64 = (b >> 52) & 0x7ff;
    if e == 0x7ff || e >= 1075 || b & MAG_MASK == 0 {
        b
    } else if e >= 1023 {
        let sh: u64 = 1075 - e;
        proof {
            assert(1u64 << sh >= 1 && (b & !(((1u64 << sh) - 1) as u64)) <= 0xffef_ffff_ffff_ffffu64 && (
            1u64 << sh) <= 0x0010_0000_0000_0000u64) by (bit_vector)
                requires
                    1 <= sh <= 52 && ((b >> 52) & 0x7ff) < 0x7ff,
            ;
        }
        let mask: u64 = (1u64 << sh) - 1;
        if b & mask == 0 {
            b
        } else if !(b & SIGN_MASK == SIGN_MASK) {
            b & !mask
        } else {
            (b & !mask) + (1u64 << sh)
        }
    } else if !(b & SIGN_MASK == SIGN_MASK) {
        ZERO_BITS
    } else {
        0xbff0_0000_0000_0000u64
    }
}

pub fn f64_ceil(b: u64) -> (r: u64)
    ensures
        r == ceil_b(b),
{
    let e: u64 = (b >> 52) & 0x7ff;
    if e == 0x7ff || e >= 1075 || b & MAG_MASK == 0 {
        b
    } else if e >= 1023 {
        let sh: u64 = 1075 - e;
        proof {
            assert(1u64 << sh >= 1 && (b & !(((1u64 << sh) - 1) as u64)) <= 0xffef_ffff_ffff_ffffu64 && (
            1u64 << sh) <= 0x0010_0000_0000_0000u64) by (bit_vector)
                requires
                    1 <= sh <= 52 && ((b >> 52) & 0x7ff) < 0x7ff,
            ;
        }
        let mask: u64 = (1u64 << sh) - 1;
        if b & mask == 0 {
            b
        } else if b & SIGN_MASK == SIGN_MASK {
            b & !mask
        } else {
            (b & !mask) + (1u64 << sh)
        }
    } else if b & SIGN_MASK == SIGN_MASK {
        SIGN_MASK
    } else {
        ONE_BITS
    }
}

/// `f64::max`: a NaN operand yields the other operand; otherwise the larger
/// value, keeping the first operand when the two compare equal.
pub open spec fn max_b(a: u64, b: u64) -> u64 {
    if is_nan_b(a) {
        b
    } else if is_nan_b(b) {
        a
    } else if num_lt_b(a, b) {
        b
    } else {
        a
    }
}

pub open spec fn min_b(a: u64, b: u64) -> u64 {
    if is_nan_b(a) {
        b
    } else if is_nan_b(b) {
        a
    } else if num_lt_b(b, a) {
        b
    } else {
        a
    }
}

pub fn f64_max(a: u64, b: u64) -> (r: u64)
    ensures
        r == max_b(a, b),
{
    if f64_is_nan(a) {
        b
    } else if f64_is_nan(b) {
        a
    } else if f64_lt(a, b) {
        b
    } else {
        a
    }
}

pub fn f64_min(a: u64, b: u64) -> (r: u64)
    ensures
        r == min_b(a, b),
{
    if f64_is_nan(a) {
        b
    } else if f64_is_nan(b) {
        a
    } else if f64_lt(b, a) {
        b
    } else {
        a
    }
}

/// The position of the highest set bit.
pub open spec fn ilog2_b(n: u64) -> u64
    decreases n,
{
    if n <= 1 {
        0u64
    } else {
        (1 + ilog2_b(n / 2)) as u64
    }
}

proof fn lemma_ilog2_bound(n: u64)
    ensures
        ilog2_b(n) <= 63,
        n >= 1 ==> (n >> ilog2_b(n)) == 1,
    decreases n,
{
    if n <= 1 {
        assert(n >= 1 ==> n >> 0 == 1) by (bit_vector)
            requires
                n <= 1,
        ;
    } else {
        lemma_ilog2_bound(n / 2);
        let k = ilog2_b(n / 2);
        assert((n / 2) >> k == 1 && k <= 62 ==> n >> ((k + 1) as u64) == 1) by (bit_vector);
        assert(ilog2_b(n) <= 63) by {
            assert((n / 2) >> k == 1 ==> k <= 62) by (bit_vector);
        }
    }
}

/// The integer the `as_int` coercion yields on the values `near_int_b`
/// accepts: the value rounded to the nearest integer, halves away from
/// zero, then clamped into the signed 64-bit range. Rounding agrees with
/// truncation on every accepted value except the band just below one in
/// magnitude, which rounds to 1 with the value's sign. (On values the
/// epsilon test rejects this is not the mathematical rounding.)
pub open spec fn round_i64_b(b: u64) -> i64 {
    if biased_exp_of(b) == 1022 {
        if sign_of(b) {
            -1i64
        } else {
            1i64
        }
    } else {
        trunc_i64_b(b)
    }
}

pub fn f64_round_i64(b: u64) -> (r: i64)
    ensures
        r == round_i64_b(b),
{
    let e: u64 = (b >> 52) & 0x7ff;
    if e == 1022 {
        if b & SIGN_MASK == SIGN_MASK {
            -1i64
        } else {
            1i64
        }
    } else {
        f64_trunc_i64(b)
    }
}

/// Whether the value is a mathematical integer. Infinities and NaN are not.
pub open spec fn is_integral_b(b: u64) -> bool {
    let e = biased_exp_of(b);
    if e == 0x7ff {
        false
    } else if mag_of(b) == 0 {
        true
    } else if e >= 1075 {
        true
    } else if e >= 1023 {
        b & (((1u64 << ((1075 - e) as u64)) - 1) as u64) == 0
    } else {
        false
    }
}

/// Whether the value is an odd integer.
pub open spec fn is_odd_int_b(b: u64) -> bool {
    let e = biased_exp_of(b);
    &&& is_integral_b(b)
    &&& 1023 <= e <= 1075
    &&& (((1u64 << 52) | frac_of(b)) >> ((1075 - e) as u64)) & 1 == 1
}

pub fn f64_is_integral(b: u64) -> (r: bool)
    ensures
        r == is_integral_b(b),
{
    let e: u64 = (b >> 52) & 0x7ff;
    if e == 0x7ff {
        false
    } else if b & MAG_MASK == 0 {
        true
    } else if e >= 1075 {
        true
    } else if e >= 1023 {
        let sh: u64 = 1075 - e;
        proof {
            assert(1u64 << sh >= 1) by (bit_vector)
                requires
                    sh <= 52,
            ;
        }
        b & ((1u64 << sh) - 1) == 0
    } else {
        false
    }
}

pub fn f64_is_odd_int(b: u64) -> (r: bool)
    ensures
        r == is_odd_int_b(b),
{
    let e: u64 = (b >> 52) & 0x7ff;
    if !f64_is_integral(b) {
        false
    } else if e < 1023 || e > 1075 {
        false
    } else {
        let sh: u64 = 1075 - e;
        (((1u64 << 52) | (b & FRAC_MASK)) >> sh) & 1 == 1
    }
}

/// The position of the highest set bit, computed by halving.
pub fn f64_ilog2(n: u64) -> (k: u64)
    requires
        n >= 1,
    ensures
        k == ilog2_b(n),
        k <= 63,
{
    let mut t: u64 = n;
    let mut k: u64 = 0;
    while t >= 2
        invariant
            1 <= t,
            ilog2_b(n) == k + ilog2_b(t),
            k <= 63,
        decreases t,
    {
        proof {
            assert(t / 2 >= 1);
            lemma_ilog2_bound(t / 2);
            assert(ilog2_b(t) == (1 + ilog2_b(t / 2)) as u64);
            assert(ilog2_b(t) == 1 + ilog2_b(t / 2));
            lemma_ilog2_bound(n);
            assert(k + 1 <= 63) by {
                assert(ilog2_b(t) >= 1);
            }
        }
        t = t / 2;
        k = k + 1;
    }
    proof {
        assert(ilog2_b(t) == 0);
    }
    k
}

/// The double nearest to the machine integer `n`, ties to even: the value of
/// `n as f64`.
pub open spec fn u64_to_bits(n: u64) -> u64 {
    if n == 0 {
        0u64
    } else {
        let k = ilog2_b(n);
        if k <= 52 {
            (((k + 1023) as u64) << 52) | ((n << ((52 - k) as u64)) & FRAC_MASK)
        } else {
            let drop = (k - 52) as u64;
            let keep = n >> drop;
            let rest = n & (((1u64 << drop) - 1) as u64);
            let half = 1u64 << ((drop - 1) as u64);
            let up = rest > half || (rest == half && keep & 1 == 1);
            let keep2 = if up {
                (keep + 1) as u64
            } else {
                keep
            };
            if keep2 == 1u64 << 53 {
                ((k + 1024) as u64) << 52
            } else {
                (((k + 1023) as u64) << 52) | (keep2 & FRAC_MASK)
            }
        }
    }
}

/// The double nearest to the signed machine integer `v`, ties to even: the
/// value of `v as f64`.
pub open spec fn i64_to_bits(v: i64) -> u64 {
    if v >= 0 {
        u64_to_bits(v as u64)
    } else {
        SIGN_MASK | u64_to_bits(((0 - v as int) % 0x1_0000_0000_0000_0000) as u64)
    }
}

pub fn f64_from_u64(n: u64) -> (r: u64)
    ensures
        r == u64_to_bits(n),
{
    if n == 0 {
        return 0u64;
    }
    let k: u64 = f64_ilog2(n);
    proof {
        lemma_ilog2_bound(n);
    }
    if k <= 52 {
        ((k + 1023) << 52) | ((n << (52 - k)) & FRAC_MASK)
    } else {
        let drop: u64 = k - 52;
        proof {
            assert(1u64 << drop >= 1 && (n >> drop) <= 0x7fff_ffff_ffff_ffffu64) by (bit_vector)
                requires
                    1 <= drop <= 11,
            ;
        }
        let keep: u64 = n >> drop;
        let rest: u64 = n & ((1u64 << drop) - 1);
        let half: u64 = 1u64 << (drop - 1);
        let up: bool = rest > half || (rest == half && keep & 1 == 1);
        let keep2: u64 = if up {
            keep + 1
        } else {
            keep
        };
        if keep2 == 1u64 << 53 {
            (k + 1024) << 52
        } else {
            ((k + 1023) << 52) | (keep2 & FRAC_MASK)
        }
    }
}

/// A machine integer up to 2^53 is a double exactly: converting it and
/// reading it back through the interpreter's integer test gives it back,
/// and the conversion is non-negative.
pub proof fn lemma_small_u64_roundtrip(n: u64)
    requires
        n <= 0x20_0000_0000_0000u64,
    ensures
        near_int_b(u64_to_bits(n)),
        trunc_i64_b(u64_to_bits(n)) == n,
        round_i64_b(u64_to_bits(n)) == n,
        !sign_of(u64_to_bits(n)),
    decreases n,
{
    if n == 0 {
        assert((0u64 >> 52) & 0x7ff == 0 && 0u64 & 0x7fff_ffff_ffff_ffffu64 == 0 && !(0u64
            & 0x8000_0000_0000_0000u64 == 0x8000_0000_0000_0000u64)) by (bit_vector);
    } else {
        lemma_ilog2_bound(n);
        let k = ilog2_b(n);
        assert(n >> k == 1 && k <= 63 && n <= 0x20_0000_0000_0000u64 ==> (k <= 53 && (k == 53 ==> n
            == 0x20_0000_0000_0000u64))) by (bit_vector);
        if k == 53 {
            // n is exactly 2^53; its conversion takes the rounding path with
            // one dropped zero bit and lands on the pattern of 2^53.
            assert(((53u64 - 52) as u64) == 1 && (0x20_0000_0000_0000u64 >> 1)
                == 0x10_0000_0000_0000u64 && (0x20_0000_0000_0000u64 & (((1u64 << 1) - 1) as u64))
                == 0 && !(0x10_0000_0000_0000u64 == 1u64 << 53) && (((53u64 + 1023) as u64) << 52)
                | (0x10_0000_0000_0000u64 & 0x000f_ffff_ffff_ffffu64) == 0x4340_0000_0000_0000u64
                && (1u64 << ((1u64 - 1) as u64)) == 1) by (bit_vector);
            assert(u64_to_bits(n) == 0x4340_0000_0000_0000u64);
            assert((0x4340_0000_0000_0000u64 >> 52) & 0x7ff == 1076 && 0x4340_0000_0000_0000u64
                & 0x000f_ffff_ffff_ffffu64 == 0 && !(0x4340_0000_0000_0000u64
                & 0x8000_0000_0000_0000u64 == 0x8000_0000_0000_0000u64) && ((1u64 << 52) | 0u64) << (
            (1076u64 - 1075) as u64) == 0x20_0000_0000_0000u64) by (bit_vector);
            assert(near_int_b(u64_to_bits(n)));
            assert(trunc_i64_b(u64_to_bits(n)) == n);
        } else {
            let sh = (52 - k) as u64;
            let ke = ((k + 1023) as u64) << 52;
            let fr = (n << sh) & FRAC_MASK;
            let bb = ke | fr;
            assert(u64_to_bits(n) == bb);
            assert(n >> k == 1 && k <= 52 && sh == (52 - k) as u64 ==> (((((k + 1023) as u64) << 52)
                | ((n << sh) & 0x000f_ffff_ffff_ffffu64)) >> 52) & 0x7ff == (k + 1023) as u64)
                by (bit_vector);
            assert(n >> k == 1 && k <= 52 && sh == (52 - k) as u64 ==> !(((((k + 1023) as u64) << 52)
                | ((n << sh) & 0x000f_ffff_ffff_ffffu64)) & 0x8000_0000_0000_0000u64
                == 0x8000_0000_0000_0000u64)) by (bit_vector);
            assert(n >> k == 1 && k <= 52 && sh == (52 - k) as u64 ==> (((((k + 1023) as u64) << 52)
                | ((n << sh) & 0x000f_ffff_ffff_ffffu64)) & (((1u64 << sh) - 1) as u64)) == 0)
                by (bit_vector);
            assert(n >> k == 1 && k <= 52 && sh == (52 - k) as u64 ==> ((1u64 << 52) | (((((k + 1023)
                as u64) << 52) | ((n << sh) & 0x000f_ffff_ffff_ffffu64))
                & 0x000f_ffff_ffff_ffffu64)) >> sh == n) by (bit_vector);
            assert(biased_exp_of(bb) == (k + 1023) as u64);
            assert(((1075 - ((k + 1023) as u64 as int)) as u64) == sh);
            assert(((1u64 << 52) | (bb & 0x000f_ffff_ffff_ffffu64)) << 0u64 == ((1u64 << 52) | (bb
                & 0x000f_ffff_ffff_ffffu64)) >> 0u64) by (bit_vector);
            assert(near_int_b(bb));
            assert(trunc_i64_b(bb) == n);
        }
    }
}

pub fn f64_from_i64(v: i64) -> (r: u64)
    ensures
        r == i64_to_bits(v),
{
    if v >= 0 {
        f64_from_u64(v as u64)
    } else if v == i64::MIN {
        let r = SIGN_MASK | f64_from_u64(0x8000_0000_0000_0000u64);
        proof {
            assert((0 - i64::MIN as int) % 0x1_0000_0000_0000_0000 == 0x8000_0000_0000_0000);
        }
        r
    } else {
        SIGN_MASK | f64_from_u64((-v) as u64)
    }
}

} // verus!
