//! Properties that hold across the element operations.
use vstd::prelude::*;
use crate::half::{
    abs_bits, is_finite, is_infinite, is_nan, lemma_units_grid, lemma_units_top, lemma_units_zero, mag,
    negate, negative_mask_bits, positive_mask_bits, pow2, relu_bits, sign_bit, units, value, ONE,
};
use crate::memory::{Arena, UnifiedBuffer};
use crate::round::{lemma_round_exact, lemma_round_unique, rounds_to};
use crate::arith::{
    is_difference, is_product, is_quotient, is_sum, signed_rounds_to,
};

verus! {

/// The absolute value is never negative, is idempotent, ignores the sign,
/// and keeps the magnitude.
pub proof fn law_abs(x: u16)
    ensures
        !sign_bit(abs_bits(x)),
        abs_bits(abs_bits(x)) == abs_bits(x),
        abs_bits(negate(x)) == abs_bits(x),
        mag(abs_bits(x)) == mag(x),
        is_finite(x) ==> value(abs_bits(x)) == units(mag(x)),
{
}

/// 1.0 is the bit pattern `ONE`, worth 2^24 units.
pub proof fn law_one()
    ensures
        is_finite(ONE),
        !sign_bit(ONE),
        value(ONE) == pow2(24),
{
    lemma_units_grid(14, 1024);
    lemma_units_top();
    assert(pow2(14) == 16384) by {
        reveal_with_fuel(pow2, 15);
    }
    assert(mag(ONE) == 14 * 1024 + 1024);
}

/// The positive and negative masks are complementary: at every element
/// exactly one of them is 1.0 and the other is +0.
pub proof fn law_masks_complementary(x: u16)
    ensures
        positive_mask_bits(x) == ONE <==> negative_mask_bits(x) == 0,
        positive_mask_bits(x) == 0 <==> negative_mask_bits(x) == ONE,
        positive_mask_bits(x) == ONE || positive_mask_bits(x) == 0,
        positive_mask_bits(x) + negative_mask_bits(x) == ONE,
{
}

/// ReLU keeps exactly the elements that the positive mask marks with 1.0,
/// is idempotent, leaves absolute values alone, and on finite values is
/// max(0, x).
pub proof fn law_relu(x: u16)
    ensures
        relu_bits(x) == (if positive_mask_bits(x) == ONE {
            x
        } else {
            0u16
        }),
        relu_bits(relu_bits(x)) == relu_bits(x),
        relu_bits(abs_bits(x)) == abs_bits(x),
        !sign_bit(relu_bits(x)),
        is_finite(x) ==> value(relu_bits(x)) == (if value(x) > 0 {
            value(x)
        } else {
            0
        }),
{
}

/// A signed rounding is determined by its sign and the rounded quantity.
proof fn lemma_signed_rounds_unique(r1: u16, r2: u16, neg: bool, num: nat, den: nat)
    requires
        den > 0,
        signed_rounds_to(r1, neg, num, den),
        signed_rounds_to(r2, neg, num, den),
    ensures
        r1 == r2,
{
    lemma_round_unique(mag(r1), mag(r2), num, den);
}

/// Each arithmetic contract admits exactly one result: the operations are
/// deterministic functions of their operands.
pub proof fn law_results_unique(r1: u16, r2: u16, a: u16, b: u16)
    ensures
        is_sum(r1, a, b) && is_sum(r2, a, b) ==> r1 == r2,
        is_difference(r1, a, b) && is_difference(r2, a, b) ==> r1 == r2,
        is_product(r1, a, b) && is_product(r2, a, b) ==> r1 == r2,
        is_quotient(r1, a, b) && is_quotient(r2, a, b) ==> r1 == r2,
{
    lemma_units_top();
    if is_sum(r1, a, b) && is_sum(r2, a, b) && !is_nan(a) && !is_nan(b) && !is_infinite(a)
        && !is_infinite(b) && value(a) + value(b) != 0 {
        lemma_signed_rounds_unique(r1, r2, value(a) + value(b) < 0, crate::arith::abs_int(value(a) + value(b)), 1);
    }
    if is_difference(r1, a, b) && is_difference(r2, a, b) && !is_nan(a) && !is_nan(b)
        && !is_infinite(a) && !is_infinite(b) && value(a) - value(b) != 0 {
        lemma_signed_rounds_unique(r1, r2, value(a) - value(b) < 0, crate::arith::abs_int(value(a) - value(b)), 1);
    }
    if is_product(r1, a, b) && is_product(r2, a, b) && !is_nan(a) && !is_nan(b)
        && !is_infinite(a) && !is_infinite(b) {
        lemma_signed_rounds_unique(r1, r2, sign_bit(a) != sign_bit(b), units(mag(a)) * units(mag(b)), pow2(24));
    }
    if is_quotient(r1, a, b) && is_quotient(r2, a, b) && !is_nan(a) && !is_nan(b)
        && !is_infinite(a) && !is_infinite(b) && mag(b) != 0 {
        lemma_units_zero(mag(b));
        lemma_signed_rounds_unique(r1, r2, sign_bit(a) != sign_bit(b), units(mag(a)) * pow2(24), units(mag(b)));
    }
}

/// Addition and multiplication are commutative.
pub proof fn law_commutative(r: u16, a: u16, b: u16)
    ensures
        is_sum(r, a, b) == is_sum(r, b, a),
        is_product(r, a, b) == is_product(r, b, a),
{
    assert(units(mag(a)) * units(mag(b)) == units(mag(b)) * units(mag(a))) by (nonlinear_arith);
}

/// A finite `x` rounds to itself: the signed rounding of its own value gives `x`.
proof fn lemma_exact(x: u16, den: nat)
    requires
        is_finite(x),
        den > 0,
    ensures
        signed_rounds_to(x, sign_bit(x), units(mag(x)) * den, den),
{
    lemma_round_exact(mag(x), den);
}

/// Exact results are returned exactly: adding +0 to a finite `x` other
/// than -0 gives `x`; `x - x` is +0; multiplying or dividing a finite `x`
/// by 1.0 gives `x`.
pub proof fn law_identities(x: u16, r: u16)
    requires
        is_finite(x),
    ensures
        x != 0x8000 ==> (is_sum(r, x, 0) <==> r == x),
        is_difference(r, x, x) <==> r == 0,
        is_product(r, x, ONE) <==> r == x,
        is_quotient(r, x, ONE) <==> r == x,
{
    lemma_units_top();
    law_one();
    lemma_exact(x, 1);
    lemma_exact(x, pow2(24));
    assert(units(mag(ONE)) == pow2(24));
    if x != 0x8000 {
        if value(x) + value(0) == 0 {
            lemma_units_zero(mag(x));
            assert(x == 0);
        } else {
            assert(crate::arith::abs_int(value(x) + value(0)) == units(mag(x)) * 1);
            if is_sum(r, x, 0) {
                lemma_signed_rounds_unique(r, x, sign_bit(x), units(mag(x)) * 1, 1);
            }
        }
    }
    assert(units(mag(x)) * pow2(24) == units(mag(x)) * units(mag(ONE)));
    if is_product(r, x, ONE) {
        lemma_signed_rounds_unique(r, x, sign_bit(x), units(mag(x)) * pow2(24), pow2(24));
    }
    assert(units(mag(x)) * pow2(24) == (units(mag(x)) * pow2(24)) * 1);
    if is_quotient(r, x, ONE) {
        lemma_exact(x, pow2(24));
        assert(rounds_to(mag(x), units(mag(x)) * pow2(24), pow2(24)));
        lemma_signed_rounds_unique(r, x, sign_bit(x), units(mag(x)) * pow2(24), pow2(24));
    }
}

/// Arena states chained by successive buffer requests never give back used
/// space.
proof fn lemma_used_grows(bufs: Seq<UnifiedBuffer>, states: Seq<Arena>, a: int, b: int)
    requires
        states.len() == bufs.len() + 1,
        forall|i: int|
            0 <= i < bufs.len() ==> #[trigger] states[i + 1].spec_used() == states[i].spec_used() + 2
                * bufs[i]@.len(),
        0 <= a <= b < states.len(),
    ensures
        states[a].spec_used() <= states[b].spec_used(),
    decreases b - a,
{
    if a < b {
        let c = b - 1;
        lemma_used_grows(bufs, states, a, c);
        assert(states[c + 1].spec_used() == states[c].spec_used() + 2 * bufs[c]@.len());
    }
}

/// Buffers taken one after another from one arena, with no reset between
/// them, occupy pairwise disjoint byte ranges `[offset, offset + 2 * len)`,
/// each inside the arena's capacity. `states[i]` is the arena before the
/// request that gave `bufs[i]`, related to it as `UnifiedBuffer::new` and
/// `alloc_buffer` state; `states.last()` is the arena after the last one.
pub proof fn law_buffers_disjoint(bufs: Seq<UnifiedBuffer>, states: Seq<Arena>)
    requires
        states.len() == bufs.len() + 1,
        forall|i: int|
            0 <= i < bufs.len() ==> (#[trigger] bufs[i]).spec_offset() == states[i].spec_used(),
        forall|i: int|
            0 <= i < bufs.len() ==> #[trigger] states[i + 1].spec_used() == states[i].spec_used() + 2
                * bufs[i]@.len(),
        forall|i: int|
            0 <= i < bufs.len() ==> #[trigger] states[i + 1].spec_capacity()
                == states[i].spec_capacity(),
        states.last().spec_used() <= states.last().spec_capacity(),
    ensures
        forall|i: int, j: int|
            0 <= i < j < bufs.len() ==> #[trigger] bufs[i].spec_offset() + 2 * bufs[i]@.len()
                <= #[trigger] bufs[j].spec_offset(),
        forall|i: int|
            0 <= i < bufs.len() ==> #[trigger] bufs[i].spec_offset() + 2 * bufs[i]@.len()
                <= states[0].spec_capacity(),
{
    let n = bufs.len() as int;
    assert forall|k: int| 0 <= k < states.len() implies #[trigger] states[k].spec_capacity()
        == states[0].spec_capacity() by {
        lemma_capacity_kept(bufs, states, k);
    }
    assert forall|i: int, j: int| 0 <= i < j < n implies #[trigger] bufs[i].spec_offset() + 2
        * bufs[i]@.len() <= #[trigger] bufs[j].spec_offset() by {
        assert(states[i + 1].spec_used() == states[i].spec_used() + 2 * bufs[i]@.len());
        lemma_used_grows(bufs, states, i + 1, j);
    }
    assert forall|i: int| 0 <= i < n implies #[trigger] bufs[i].spec_offset() + 2 * bufs[i]@.len()
        <= states[0].spec_capacity() by {
        assert(states[i + 1].spec_used() == states[i].spec_used() + 2 * bufs[i]@.len());
        lemma_used_grows(bufs, states, i + 1, n);
        assert(states[n].spec_capacity() == states[0].spec_capacity());
    }
}

/// Requests for buffers leave an arena's capacity alone.
proof fn lemma_capacity_kept(bufs: Seq<UnifiedBuffer>, states: Seq<Arena>, k: int)
    requires
        states.len() == bufs.len() + 1,
        forall|i: int|
            0 <= i < bufs.len() ==> #[trigger] states[i + 1].spec_capacity()
                == states[i].spec_capacity(),
        0 <= k < states.len(),
    ensures
        states[k].spec_capacity() == states[0].spec_capacity(),
    decreases k,
{
    if k > 0 {
        let c = k - 1;
        lemma_capacity_kept(bufs, states, c);
        assert(states[c + 1].spec_capacity() == states[c].spec_capacity());
    }
}

/// The elements after the writes `writes` (index, value), done in order
/// through `slice_mut`, starting from the elements `s`.
pub open spec fn apply_writes(s: Seq<u16>, writes: Seq<(int, u16)>) -> Seq<u16>
    decreases writes.len(),
{
    if writes.len() == 0 {
        s
    } else {
        apply_writes(s, writes.drop_last()).update(writes.last().0, writes.last().1)
    }
}

/// The value of the last write to index `i` in `writes`, if any.
pub open spec fn last_write(writes: Seq<(int, u16)>, i: int) -> Option<u16>
    decreases writes.len(),
{
    if writes.len() == 0 {
        None
    } else if writes.last().0 == i {
        Some(writes.last().1)
    } else {
        last_write(writes.drop_last(), i)
    }
}

/// After any list of in-range writes, each element holds the value of the
/// last write to its index, and elements no write touched keep their value.
pub proof fn law_last_write_wins(s: Seq<u16>, writes: Seq<(int, u16)>)
    requires
        forall|k: int| 0 <= k < writes.len() ==> 0 <= (#[trigger] writes[k]).0 < s.len(),
    ensures
        apply_writes(s, writes).len() == s.len(),
        forall|i: int|
            0 <= i < s.len() ==> #[trigger] apply_writes(s, writes)[i] == match last_write(writes, i) {
                Some(v) => v,
                None => s[i],
            },
    decreases writes.len(),
{
    if writes.len() > 0 {
        let rest = writes.drop_last();
        assert forall|k: int| 0 <= k < rest.len() implies 0 <= (#[trigger] rest[k]).0 < s.len() by {
            assert(rest[k] == writes[k]);
        }
        law_last_write_wins(s, rest);
        assert(writes.last() == writes[writes.len() - 1]);
    }
}

} // verus!
