//! Rounding an exact non-negative quantity to the nearest half magnitude,
//! ties to even (the IEEE 754 default rounding).
use vstd::prelude::*;
use crate::half::{lemma_pow2_mono, lemma_pow2_pos, lemma_units_grid, lemma_units_le, lemma_units_mono, lemma_units_top, pow2, units};

verus! {

/// The distance between the magnitude denoted by code `x` and the quantity
/// `num / den` units, multiplied by `den` so that it stays an integer.
pub open spec fn gap(x: nat, num: nat, den: nat) -> nat {
    let scaled = units(x) * den;
    if scaled >= num {
        (scaled - num) as nat
    } else {
        (num - scaled) as nat
    }
}

/// Whether `num / den` units is at least 65520, half an ulp above the largest
/// finite half (65504): such a quantity rounds to infinity.
pub open spec fn overflows(num: nat, den: nat) -> bool {
    num >= 4095 * pow2(28) * den
}

/// Whether the magnitude code `r` is `num / den` units rounded to the nearest
/// half magnitude, ties to the one with an even code, and to infinity
/// (`0x7C00`) on overflow.
pub open spec fn rounds_to(r: nat, num: nat, den: nat) -> bool {
    if overflows(num, den) {
        r == 0x7C00
    } else {
        &&& r < 0x7C00
        &&& forall|x: nat|
            x < 0x7C00 ==> gap(r, num, den) <= #[trigger] gap(x, num, den) && (gap(x, num, den)
                == gap(r, num, den) && x != r ==> r % 2 == 0)
    }
}

/// Facts about a grid cell: the codes `lo` and `lo + 1` bracket the quantity,
/// every other code is strictly farther away than the nearer of them.
proof fn lemma_cell(num: nat, den: nat, k: nat, d: nat, m: nat, rem: nat)
    requires
        den > 0,
        k <= 29,
        d == den * pow2(k),
        m < 2048,
        k == 0 || m >= 1024,
        num == m * d + rem,
        rem < d,
    ensures
        gap(k * 1024 + m, num, den) == rem,
        gap(k * 1024 + m + 1, num, den) == d - rem,
        forall|x: nat|
            x <= 0x7C00 && x < k * 1024 + m ==> #[trigger] gap(x, num, den) > rem,
        forall|x: nat|
            x <= 0x7C00 && x > k * 1024 + m + 1 ==> #[trigger] gap(x, num, den) > d - rem,
{
    let lo = k * 1024 + m;
    lemma_units_grid(k, m);
    lemma_units_grid(k, m + 1);
    lemma_pow2_pos(k);
    assert(units(lo) * den == m * d) by (nonlinear_arith)
        requires
            units(lo) == m * pow2(k),
            d == den * pow2(k),
    ;
    assert(units(lo + 1) * den == m * d + d) by (nonlinear_arith)
        requires
            units(lo + 1) == (m + 1) * pow2(k),
            d == den * pow2(k),
    ;
    assert forall|x: nat| x <= 0x7C00 && x < lo implies #[trigger] gap(x, num, den) > rem by {
        lemma_units_mono(x, lo);
        assert(units(x) * den < units(lo) * den) by (nonlinear_arith)
            requires
                units(x) < units(lo),
                den > 0,
        ;
    }
    assert forall|x: nat| x <= 0x7C00 && x > lo + 1 implies #[trigger] gap(x, num, den) > d
        - rem by {
        lemma_units_mono(lo + 1, x);
        assert(units(x) * den > units(lo + 1) * den) by (nonlinear_arith)
            requires
                units(x) > units(lo + 1),
                den > 0,
        ;
    }
}

/// Rounds `num / den` units to the nearest half magnitude code, ties to even;
/// quantities of 65520 and above give infinity (`0x7C00`).
pub fn round_units(num: u128, den: u128) -> (r: u16)
    requires
        0 < den < 0x200_0000_0000,
        num < 0x1_0000_0000_0000_0000_0000_0000,
    ensures
        r <= 0x7C00,
        rounds_to(r as nat, num as nat, den as nat),
{
    proof {
        lemma_units_top();
        assert(pow2(0) == 1);
        assert(den * pow2(0) == den);
    }
    let mut k: u16 = 0;
    let mut d: u128 = den;
    while k < 30 && num >= 2048 * d
        invariant
            0 < den < 0x200_0000_0000,
            k <= 30,
            d == den * pow2(k as nat),
            d <= den * 0x4000_0000,
            k > 0 ==> num >= 1024 * d,
        decreases 30 - k,
    {
        proof {
            lemma_pow2_mono((k + 1) as nat, 30);
            reveal_with_fuel(pow2, 31);
            assert(den * pow2((k + 1) as nat) <= den * 0x4000_0000) by (nonlinear_arith)
                requires
                    pow2((k + 1) as nat) <= 0x4000_0000,
            ;
            assert(pow2((k + 1) as nat) == 2 * pow2(k as nat));
            assert(den * pow2((k + 1) as nat) == 2 * (den * pow2(k as nat))) by (nonlinear_arith)
                requires
                    pow2((k + 1) as nat) == 2 * pow2(k as nat),
            ;
        }
        d = d * 2;
        k = k + 1;
    }
    if k == 30 {
        proof {
            reveal_with_fuel(pow2, 31);
            assert(pow2(30) == 0x4000_0000);
            assert(num >= 4095 * pow2(28) * den) by (nonlinear_arith)
                requires
                    num >= 1024 * d,
                    d == den * 0x4000_0000,
                    pow2(28) == 0x1000_0000,
            ;
        }
        return 0x7C00;
    }
    let m = num / d;
    let rem = num % d;
    proof {
        lemma_pow2_pos(k as nat);
        assert(m < 2048) by (nonlinear_arith)
            requires
                m == num / d,
                num < 2048 * d,
                d > 0,
        ;
        assert(k > 0 ==> m >= 1024) by (nonlinear_arith)
            requires
                m == num / d,
                k > 0 ==> num >= 1024 * d,
                d > 0,
        ;
        assert(num == m * d + rem) by (nonlinear_arith)
            requires
                m == num / d,
                rem == num % d,
                d > 0,
        ;
    }
    let up = 2 * rem > d || (2 * rem == d && m % 2 == 1);
    let m2 = if up {
        m + 1
    } else {
        m
    };
    let r = k * 1024 + m2 as u16;
    proof {
        let lo = k * 1024 + m;
        lemma_cell(num as nat, den as nat, k as nat, d as nat, m as nat, rem as nat);
        if k < 29 {
            lemma_pow2_mono((k + 1) as nat, 29);
            assert(!overflows(num as nat, den as nat)) by (nonlinear_arith)
                requires
                    num < 2048 * d,
                    d == den * pow2(k as nat),
                    2 * pow2(k as nat) <= pow2(29),
                    pow2(29) == 0x2000_0000,
                    pow2(28) == 0x1000_0000,
                    den > 0,
            {
                assert(2048 * d <= 1024 * den * pow2(29));
            }
        } else {
            assert(overflows(num as nat, den as nat) <==> 2 * num >= 4095 * d) by (nonlinear_arith)
                requires
                    d == den * pow2(29),
                    pow2(29) == 2 * pow2(28),
            ;
            assert(overflows(num as nat, den as nat) <==> (m == 2047 && 2 * rem >= d))
                by (nonlinear_arith)
                requires
                    overflows(num as nat, den as nat) <==> 2 * num >= 4095 * d,
                    num == m * d + rem,
                    rem < d,
                    m < 2048,
            {
                if m == 2047 && 2 * rem >= d {
                    assert(2 * num == 4094 * d + 2 * rem);
                }
                if m < 2047 {
                    assert(m * d <= 2046 * d);
                }
            }
        }
        if !overflows(num as nat, den as nat) {
            assert forall|x: nat| x < 0x7C00 implies gap(r as nat, num as nat, den as nat)
                <= #[trigger] gap(x, num as nat, den as nat) && (gap(x, num as nat, den as nat)
                == gap(r as nat, num as nat, den as nat) && x != r ==> r % 2 == 0) by {
                if x < lo {
                } else if x > lo + 1 {
                } else {
                }
            }
        }
    }
    r
}

/// A finite magnitude is its own rounding: exactly representable quantities
/// come back unchanged.
pub proof fn lemma_round_exact(c: nat, den: nat)
    requires
        c < 0x7C00,
        den > 0,
    ensures
        rounds_to(c, units(c) * den, den),
{
    let num = units(c) * den;
    lemma_units_top();
    if c < 0x7BFF {
        lemma_units_mono(c, 0x7BFF);
    }
    assert(units(0x7BFF) == 2047 * 0x2000_0000) by {
        lemma_units_grid(29, 2047);
    }
    assert(!overflows(num, den)) by (nonlinear_arith)
        requires
            num == units(c) * den,
            units(c) <= 2047 * 0x2000_0000,
            pow2(28) == 0x1000_0000,
            den > 0,
    ;
    assert(gap(c, num, den) == 0);
    assert forall|x: nat| x < 0x7C00 implies gap(c, num, den) <= #[trigger] gap(x, num, den) && (
    gap(x, num, den) == gap(c, num, den) && x != c ==> c % 2 == 0) by {
        if x != c {
            lemma_units_le(x, c);
            assert(units(x) * den != units(c) * den) by (nonlinear_arith)
                requires
                    units(x) != units(c),
                    den > 0,
            ;
        }
    }
}

/// Rounding has exactly one result: two codes that both satisfy
/// `rounds_to` for the same quantity are the same code.
pub proof fn lemma_round_unique(r1: nat, r2: nat, num: nat, den: nat)
    requires
        den > 0,
        rounds_to(r1, num, den),
        rounds_to(r2, num, den),
    ensures
        r1 == r2,
{
    if !overflows(num, den) && r1 != r2 {
        let lo = if r1 < r2 { r1 } else { r2 };
        let hi = if r1 < r2 { r2 } else { r1 };
        let g = gap(lo, num, den);
        assert(gap(hi, num, den) == g);
        assert(lo % 2 == 0 && hi % 2 == 0);
        let mid = lo + 1;
        assert(mid < hi);
        lemma_units_mono(lo, mid);
        lemma_units_mono(mid, hi);
        let a = units(lo) * den;
        let b = units(mid) * den;
        let c = units(hi) * den;
        assert(a < b < c) by (nonlinear_arith)
            requires
                units(lo) < units(mid) < units(hi),
                a == units(lo) * den,
                b == units(mid) * den,
                c == units(hi) * den,
                den > 0,
        ;
        assert(gap(mid, num, den) < g);
        assert(gap(mid, num, den) >= gap(r1, num, den));
    }
}

} // verus!
