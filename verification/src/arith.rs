//! Correctly rounded half-precision arithmetic: sum, difference, product and
//! quotient, following IEEE 754 with rounding to nearest, ties to even.
//!
//! Every NaN result is the quiet NaN `0x7E00`.
use vstd::prelude::*;
use crate::half::{
    is_infinite, is_nan, lemma_units_bound, lemma_units_top, lemma_units_zero, mag, negate, pow2,
    sign_bit, units, value, INFINITY, QUIET_NAN,
};
use crate::round::{round_units, rounds_to};

verus! {

/// `r` has sign `neg` and a magnitude that is `num / den` units rounded.
pub open spec fn signed_rounds_to(r: u16, neg: bool, num: nat, den: nat) -> bool {
    sign_bit(r) == neg && rounds_to(mag(r), num, den)
}

/// Infinity with the given sign.
pub open spec fn signed_infinity(neg: bool) -> u16 {
    if neg {
        0xFC00
    } else {
        0x7C00
    }
}

/// Zero with the given sign.
pub open spec fn signed_zero(neg: bool) -> u16 {
    if neg {
        0x8000
    } else {
        0
    }
}

/// Absolute value of an integer.
pub open spec fn abs_int(v: int) -> nat {
    if v < 0 {
        (-v) as nat
    } else {
        v as nat
    }
}

/// `r` is the IEEE 754 sum `a + b`, rounded to nearest, ties to even.
pub open spec fn is_sum(r: u16, a: u16, b: u16) -> bool {
    if is_nan(a) || is_nan(b) {
        r == QUIET_NAN
    } else if is_infinite(a) && is_infinite(b) {
        if sign_bit(a) == sign_bit(b) {
            r == a
        } else {
            r == QUIET_NAN
        }
    } else if is_infinite(a) {
        r == a
    } else if is_infinite(b) {
        r == b
    } else if value(a) + value(b) == 0 {
        r == signed_zero(sign_bit(a) && sign_bit(b))
    } else {
        signed_rounds_to(r, value(a) + value(b) < 0, abs_int(value(a) + value(b)), 1)
    }
}

/// `r` is the IEEE 754 difference `a - b`, rounded to nearest, ties to even.
pub open spec fn is_difference(r: u16, a: u16, b: u16) -> bool {
    if is_nan(a) || is_nan(b) {
        r == QUIET_NAN
    } else if is_infinite(a) && is_infinite(b) {
        if sign_bit(a) != sign_bit(b) {
            r == a
        } else {
            r == QUIET_NAN
        }
    } else if is_infinite(a) {
        r == a
    } else if is_infinite(b) {
        r == negate(b)
    } else if value(a) - value(b) == 0 {
        r == signed_zero(sign_bit(a) && !sign_bit(b))
    } else {
        signed_rounds_to(r, value(a) - value(b) < 0, abs_int(value(a) - value(b)), 1)
    }
}

/// `r` is the IEEE 754 product `a * b`, rounded to nearest, ties to even.
pub open spec fn is_product(r: u16, a: u16, b: u16) -> bool {
    let neg = sign_bit(a) != sign_bit(b);
    if is_nan(a) || is_nan(b) {
        r == QUIET_NAN
    } else if is_infinite(a) || is_infinite(b) {
        if mag(a) == 0 || mag(b) == 0 {
            r == QUIET_NAN
        } else {
            r == signed_infinity(neg)
        }
    } else {
        signed_rounds_to(r, neg, units(mag(a)) * units(mag(b)), pow2(24))
    }
}

/// `r` is the IEEE 754 quotient `a / b`, rounded to nearest, ties to even.
pub open spec fn is_quotient(r: u16, a: u16, b: u16) -> bool {
    let neg = sign_bit(a) != sign_bit(b);
    if is_nan(a) || is_nan(b) {
        r == QUIET_NAN
    } else if is_infinite(a) {
        if is_infinite(b) {
            r == QUIET_NAN
        } else {
            r == signed_infinity(neg)
        }
    } else if is_infinite(b) {
        r == signed_zero(neg)
    } else if mag(b) == 0 {
        if mag(a) == 0 {
            r == QUIET_NAN
        } else {
            r == signed_infinity(neg)
        }
    } else {
        signed_rounds_to(r, neg, units(mag(a)) * pow2(24), units(mag(b)))
    }
}

/// The magnitude of a finite or infinite `x`, in units of 2^-24.
fn units_of(x: u16) -> (u: u64)
    requires
        !is_nan(x),
    ensures
        u == units(mag(x)),
        u <= 0x100_0000_0000,
{
    proof {
        lemma_units_bound(mag(x));
    }
    let m = x % 0x8000;
    if m < 1024 {
        return m as u64;
    }
    let e = m / 1024;
    let f = m % 1024;
    let mut p: u64 = 1;
    let mut i: u16 = 1;
    while i < e
        invariant
            1 <= i <= e <= 31,
            p == pow2((i - 1) as nat),
            p <= 0x4000_0000,
        decreases e - i,
    {
        proof {
            lemma_units_top();
            crate::half::lemma_pow2_mono(i as nat, 30);
            assert(pow2(30) == 2 * pow2(29));
            assert(pow2(i as nat) == 2 * pow2((i - 1) as nat));
        }
        p = p * 2;
        i = i + 1;
    }
    proof {
        assert(units(mag(x)) == (f as nat + 1024) * pow2((e - 1) as nat));
    }
    (f as u64 + 1024) * p
}

/// Places the magnitude code `m` under the sign `neg`.
fn with_sign(m: u16, neg: bool) -> (r: u16)
    requires
        m <= 0x7C00,
    ensures
        mag(r) == m,
        sign_bit(r) == neg,
{
    if neg {
        m + 0x8000
    } else {
        m
    }
}

/// IEEE 754 binary16 addition, rounded to nearest, ties to even.
pub fn half_add(a: u16, b: u16) -> (r: u16)
    ensures
        is_sum(r, a, b),
{
    let ma = a % 0x8000;
    let mb = b % 0x8000;
    if ma > 0x7C00 || mb > 0x7C00 {
        return QUIET_NAN;
    }
    if ma == 0x7C00 && mb == 0x7C00 {
        if (a >= 0x8000) == (b >= 0x8000) {
            return a;
        } else {
            return QUIET_NAN;
        }
    }
    if ma == 0x7C00 {
        return a;
    }
    if mb == 0x7C00 {
        return b;
    }
    let ua = units_of(a) as i64;
    let ub = units_of(b) as i64;
    let va = if a >= 0x8000 {
        -ua
    } else {
        ua
    };
    let vb = if b >= 0x8000 {
        -ub
    } else {
        ub
    };
    let s = va + vb;
    if s == 0 {
        return if a >= 0x8000 && b >= 0x8000 {
            0x8000
        } else {
            0
        };
    }
    let neg = s < 0;
    let n: u128 = if neg {
        (-s) as u128
    } else {
        s as u128
    };
    let m = round_units(n, 1);
    with_sign(m, neg)
}

/// Flipping the sign bit keeps the magnitude and negates the value.
pub proof fn lemma_negate(b: u16)
    ensures
        mag(negate(b)) == mag(b),
        sign_bit(negate(b)) == !sign_bit(b),
        value(negate(b)) == -value(b),
        negate(negate(b)) == b,
{
}

/// The difference `a - b` is the sum of `a` and `b` with its sign flipped.
pub proof fn lemma_difference_is_sum_of_negation(r: u16, a: u16, b: u16)
    ensures
        is_difference(r, a, b) == is_sum(r, a, negate(b)),
{
    lemma_negate(b);
}

/// Flips the sign bit.
pub fn half_negate(x: u16) -> (r: u16)
    ensures
        r == negate(x),
{
    if x >= 0x8000 {
        x - 0x8000
    } else {
        x + 0x8000
    }
}

/// IEEE 754 binary16 subtraction, rounded to nearest, ties to even.
pub fn half_sub(a: u16, b: u16) -> (r: u16)
    ensures
        is_difference(r, a, b),
{
    let r = half_add(a, half_negate(b));
    proof {
        lemma_difference_is_sum_of_negation(r, a, b);
    }
    r
}

/// IEEE 754 binary16 multiplication, rounded to nearest, ties to even.
pub fn half_mul(a: u16, b: u16) -> (r: u16)
    ensures
        is_product(r, a, b),
{
    let ma = a % 0x8000;
    let mb = b % 0x8000;
    if ma > 0x7C00 || mb > 0x7C00 {
        return QUIET_NAN;
    }
    let neg = (a >= 0x8000) != (b >= 0x8000);
    if ma == 0x7C00 || mb == 0x7C00 {
        if ma == 0 || mb == 0 {
            return QUIET_NAN;
        } else {
            return with_sign(INFINITY, neg);
        }
    }
    let ua = units_of(a) as u128;
    let ub = units_of(b) as u128;
    proof {
        lemma_units_top();
        assert(ua * ub <= 0x100_0000_0000 * 0x100_0000_0000) by (nonlinear_arith)
            requires
                ua <= 0x100_0000_0000,
                ub <= 0x100_0000_0000,
        ;
    }
    let m = round_units(ua * ub, 0x100_0000);
    with_sign(m, neg)
}

/// IEEE 754 binary16 division, rounded to nearest, ties to even.
pub fn half_div(a: u16, b: u16) -> (r: u16)
    ensures
        is_quotient(r, a, b),
{
    let ma = a % 0x8000;
    let mb = b % 0x8000;
    if ma > 0x7C00 || mb > 0x7C00 {
        return QUIET_NAN;
    }
    let neg = (a >= 0x8000) != (b >= 0x8000);
    if ma == 0x7C00 {
        if mb == 0x7C00 {
            return QUIET_NAN;
        } else {
            return with_sign(INFINITY, neg);
        }
    }
    if mb == 0x7C00 {
        return with_sign(0, neg);
    }
    if mb == 0 {
        if ma == 0 {
            return QUIET_NAN;
        } else {
            return with_sign(INFINITY, neg);
        }
    }
    let ua = units_of(a) as u128;
    let ub = units_of(b) as u128;
    proof {
        lemma_units_top();
        lemma_units_zero(mag(b));
    }
    let m = round_units(ua * 0x100_0000, ub);
    with_sign(m, neg)
}

} // verus!
