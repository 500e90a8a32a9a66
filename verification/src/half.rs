//! Bit-level model of IEEE 754 binary16 ("half") values stored as `u16`.
//!
//! A value is laid out as one sign bit, five exponent bits and ten fraction
//! bits. Its magnitude is measured here in integer units of 2^-24, the
//! spacing of the smallest subnormal numbers, so that every finite half value
//! is an integer number of units and no rational arithmetic is needed.
use vstd::prelude::*;

verus! {

/// The bit pattern of +1.0.
pub const ONE: u16 = 0x3C00;

/// The bit pattern of +infinity.
pub const INFINITY: u16 = 0x7C00;

/// The quiet NaN that the arithmetic operations produce.
pub const QUIET_NAN: u16 = 0x7E00;

/// 2 to the power `n`.
pub open spec fn pow2(n: nat) -> nat
    decreases n,
{
    if n == 0 {
        1
    } else {
        2 * pow2((n - 1) as nat)
    }
}

/// Whether the sign bit of `x` is set.
pub open spec fn sign_bit(x: u16) -> bool {
    x >= 0x8000
}

/// The fifteen low bits of `x`: exponent and fraction, without the sign.
pub open spec fn mag(x: u16) -> nat {
    (x % 0x8000) as nat
}

/// Whether `x` encodes a NaN (all exponent bits set, fraction not zero).
pub open spec fn is_nan(x: u16) -> bool {
    mag(x) > 0x7C00
}

/// Whether `x` encodes +infinity or -infinity.
pub open spec fn is_infinite(x: u16) -> bool {
    mag(x) == 0x7C00
}

/// Whether `x` encodes a finite number (zero, subnormal or normal).
pub open spec fn is_finite(x: u16) -> bool {
    mag(x) < 0x7C00
}

/// The magnitude, in units of 2^-24, denoted by the fifteen low bits `m`.
/// For `m == 0x7C00` this is 2^16 (as a real number), the first power of two
/// beyond the finite range, which makes the grid of magnitudes uniform.
pub open spec fn units(m: nat) -> nat {
    if m < 1024 {
        m
    } else {
        ((m % 1024) + 1024) * pow2((m / 1024 - 1) as nat)
    }
}

/// The signed value of a finite `x`, in units of 2^-24.
pub open spec fn value(x: u16) -> int {
    if sign_bit(x) {
        -(units(mag(x)) as int)
    } else {
        units(mag(x)) as int
    }
}

/// `x` with its sign bit flipped.
pub open spec fn negate(x: u16) -> u16 {
    if sign_bit(x) {
        (x - 0x8000) as u16
    } else {
        (x + 0x8000) as u16
    }
}

pub proof fn lemma_pow2_pos(n: nat)
    ensures
        pow2(n) >= 1,
    decreases n,
{
    if n > 0 {
        lemma_pow2_pos((n - 1) as nat);
    }
}

pub proof fn lemma_pow2_mono(a: nat, b: nat)
    requires
        a <= b,
    ensures
        pow2(a) <= pow2(b),
    decreases b,
{
    if a < b {
        lemma_pow2_mono(a, (b - 1) as nat);
        lemma_pow2_pos((b - 1) as nat);
    }
}

/// The grid of half magnitudes: the code `k * 1024 + m` denotes `m * 2^k`
/// units, for every mantissa `m` of the binade `k` (including its upper end).
pub proof fn lemma_units_grid(k: nat, m: nat)
    requires
        k <= 29,
        m <= 2048,
        k == 0 || m >= 1024,
    ensures
        units(k * 1024 + m) == m * pow2(k),
{
    let c = k * 1024 + m;
    if k == 0 {
        if m < 1024 {
        } else if m < 2048 {
            assert(c / 1024 == 1 && c % 1024 == m - 1024);
            assert(pow2(0) == 1);
        } else {
            assert(c / 1024 == 2 && c % 1024 == 0);
            assert(pow2(1) == 2) by {
                reveal_with_fuel(pow2, 2);
            }
        }
    } else if m < 2048 {
        assert(c / 1024 == k + 1 && c % 1024 == m - 1024);
    } else {
        assert(c / 1024 == k + 2 && c % 1024 == 0);
        assert(pow2(k + 1) == 2 * pow2(k));
        assert(1024 * pow2(k + 1) == 2048 * pow2(k));
    }
}

/// Each code denotes strictly more units than the one before.
pub proof fn lemma_units_step(m: nat)
    requires
        m < 0x7C00,
    ensures
        units(m) < units(m + 1),
{
    let e = m / 1024;
    let f = m % 1024;
    if e == 0 {
        if f == 1023 {
            assert(units(m + 1) == 1024) by {
                lemma_units_grid(0, 1024);
            }
        }
    } else {
        lemma_pow2_pos((e - 1) as nat);
        if f < 1023 {
            assert((m + 1) / 1024 == e && (m + 1) % 1024 == f + 1);
            assert((f + 1 + 1024) * pow2((e - 1) as nat) == (f + 1024) * pow2((e - 1) as nat)
                + pow2((e - 1) as nat)) by (nonlinear_arith);
        } else {
            assert((m + 1) / 1024 == e + 1 && (m + 1) % 1024 == 0);
            assert(pow2(e) == 2 * pow2((e - 1) as nat));
            assert(units(m) == 2047 * pow2((e - 1) as nat));
            assert(units(m + 1) == 1024 * pow2(e));
        }
    }
}

/// Codes are ordered as the magnitudes they denote.
pub proof fn lemma_units_mono(x: nat, y: nat)
    requires
        x < y <= 0x7C00,
    ensures
        units(x) < units(y),
    decreases y - x,
{
    lemma_units_step(x);
    if x + 1 < y {
        lemma_units_mono(x + 1, y);
    }
}

/// Only the code 0 denotes zero units.
pub proof fn lemma_units_zero(m: nat)
    ensures
        units(m) == 0 <==> m == 0,
{
    if m >= 1024 {
        let p = pow2((m / 1024 - 1) as nat);
        lemma_pow2_pos((m / 1024 - 1) as nat);
        assert(((m % 1024) + 1024) * p >= 1) by (nonlinear_arith)
            requires
                p >= 1,
        ;
    }
}

/// Codes are ordered as the magnitudes they denote, in both directions.
pub proof fn lemma_units_le(x: nat, y: nat)
    requires
        x <= 0x7C00,
        y <= 0x7C00,
    ensures
        x <= y <==> units(x) <= units(y),
        x == y <==> units(x) == units(y),
{
    if x < y {
        lemma_units_mono(x, y);
    } else if y < x {
        lemma_units_mono(y, x);
    }
}

/// The largest code of interest denotes 2^40 units.
pub proof fn lemma_units_top()
    ensures
        units(0x7C00) == 0x100_0000_0000,
        pow2(24) == 0x100_0000,
        pow2(28) == 0x1000_0000,
        pow2(29) == 0x2000_0000,
{
    reveal_with_fuel(pow2, 31);
    assert(0x7C00nat / 1024 == 31 && 0x7C00nat % 1024 == 0);
    assert(pow2(30) == 0x4000_0000);
    let t: nat = 0x7C00;
    assert(t >= 1024);
    assert(((t / 1024 - 1) as nat) == 30);
    assert(units(t) == ((t % 1024) + 1024) * pow2(30));
}

/// Every finite code denotes fewer than 2^40 units.
pub proof fn lemma_units_bound(m: nat)
    requires
        m <= 0x7C00,
    ensures
        units(m) <= 0x100_0000_0000,
{
    lemma_units_top();
    if m < 0x7C00 {
        lemma_units_mono(m, 0x7C00);
    }
}

/// The absolute value of `x`: its bits with the sign bit cleared.
pub open spec fn abs_bits(x: u16) -> u16 {
    (x % 0x8000) as u16
}

/// max(0, x): `x` when its sign bit is clear, +0 otherwise.
pub open spec fn relu_bits(x: u16) -> u16 {
    if sign_bit(x) {
        0
    } else {
        x
    }
}

/// 1.0 for values whose sign bit is clear (including +0), +0 otherwise.
pub open spec fn positive_mask_bits(x: u16) -> u16 {
    if sign_bit(x) {
        0
    } else {
        ONE
    }
}

/// 1.0 for values whose sign bit is set (including -0), +0 otherwise.
pub open spec fn negative_mask_bits(x: u16) -> u16 {
    if sign_bit(x) {
        ONE
    } else {
        0
    }
}

/// Absolute value of one element.
pub fn half_abs(x: u16) -> (r: u16)
    ensures
        r == abs_bits(x),
{
    proof {
        assert(x & 0x7FFF == x % 0x8000) by (bit_vector);
    }
    x & 0x7FFF
}

/// Whether the sign bit of `x` is set.
pub fn half_sign_bit(x: u16) -> (r: bool)
    ensures
        r == sign_bit(x),
{
    proof {
        assert((x & 0x8000 != 0) == (x >= 0x8000)) by (bit_vector);
    }
    x & 0x8000 != 0
}

/// max(0, x) of one element.
pub fn half_relu(x: u16) -> (r: u16)
    ensures
        r == relu_bits(x),
{
    if half_sign_bit(x) {
        0
    } else {
        x
    }
}

/// 1.0 where the sign bit is clear, +0 where it is set.
pub fn half_positive_mask(x: u16) -> (r: u16)
    ensures
        r == positive_mask_bits(x),
{
    if half_sign_bit(x) {
        0
    } else {
        ONE
    }
}

/// 1.0 where the sign bit is set, +0 where it is clear.
pub fn half_negative_mask(x: u16) -> (r: u16)
    ensures
        r == negative_mask_bits(x),
{
    if half_sign_bit(x) {
        ONE
    } else {
        0
    }
}

} // verus!
