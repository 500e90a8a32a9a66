//! Element-wise operations on half-precision buffers.
use vstd::prelude::*;
use crate::half::{
    abs_bits, half_abs, half_negative_mask, half_positive_mask, half_relu, negative_mask_bits,
    positive_mask_bits, relu_bits,
};
use crate::memory::UnifiedBuffer;
use crate::arith::{half_add, half_div, half_mul, half_sub, is_difference, is_product, is_quotient, is_sum};

verus! {

/// The bit-level operations that act on one element at a time.
pub(crate) enum UnaryOp {
    Abs,
    Relu,
    PositiveMask,
    NegativeMask,
}

pub(crate) open spec fn unary_spec(op: UnaryOp, x: u16) -> u16 {
    match op {
        UnaryOp::Abs => abs_bits(x),
        UnaryOp::Relu => relu_bits(x),
        UnaryOp::PositiveMask => positive_mask_bits(x),
        UnaryOp::NegativeMask => negative_mask_bits(x),
    }
}

fn unary_exec(op: &UnaryOp, x: u16) -> (r: u16)
    ensures
        r == unary_spec(*op, x),
{
    match op {
        UnaryOp::Abs => half_abs(x),
        UnaryOp::Relu => half_relu(x),
        UnaryOp::PositiveMask => half_positive_mask(x),
        UnaryOp::NegativeMask => half_negative_mask(x),
    }
}

/// Writes `op` of each element of `src` into `dst`.
fn map_into(op: &UnaryOp, src: &[u16], dst: &mut [u16])
    requires
        src@.len() == old(dst)@.len(),
    ensures
        final(dst)@ == src@.map_values(|x: u16| unary_spec(*op, x)),
{
    let n = src.len();
    let mut i: usize = 0;
    while i < n
        invariant
            n == src@.len(),
            dst@.len() == n,
            i <= n,
            forall|j: int| 0 <= j < i ==> dst@[j] == unary_spec(*op, src@[j]),
        decreases n - i,
    {
        let v = unary_exec(op, src[i]);
        dst[i] = v;
        i = i + 1;
    }
    assert(dst@ =~= src@.map_values(|x: u16| unary_spec(*op, x)));
}

/// Replaces each element of `data` with `op` of it.
fn map_in_place(op: &UnaryOp, data: &mut [u16])
    ensures
        final(data)@ == old(data)@.map_values(|x: u16| unary_spec(*op, x)),
{
    let ghost before = data@;
    let n = data.len();
    let mut i: usize = 0;
    while i < n
        invariant
            n == before.len(),
            data@.len() == n,
            i <= n,
            forall|j: int| 0 <= j < i ==> data@[j] == unary_spec(*op, before[j]),
            forall|j: int| i <= j < n ==> data@[j] == before[j],
        decreases n - i,
    {
        let v = unary_exec(op, data[i]);
        data[i] = v;
        i = i + 1;
    }
    assert(data@ =~= before.map_values(|x: u16| unary_spec(*op, x)));
}

/// The arithmetic operations that combine two elements.
pub(crate) enum BinaryOp {
    Add,
    Sub,
    Mul,
    Div,
}

pub(crate) open spec fn binary_spec(op: BinaryOp, r: u16, a: u16, b: u16) -> bool {
    match op {
        BinaryOp::Add => is_sum(r, a, b),
        BinaryOp::Sub => is_difference(r, a, b),
        BinaryOp::Mul => is_product(r, a, b),
        BinaryOp::Div => is_quotient(r, a, b),
    }
}

fn binary_exec(op: &BinaryOp, a: u16, b: u16) -> (r: u16)
    ensures
        binary_spec(*op, r, a, b),
{
    match op {
        BinaryOp::Add => half_add(a, b),
        BinaryOp::Sub => half_sub(a, b),
        BinaryOp::Mul => half_mul(a, b),
        BinaryOp::Div => half_div(a, b),
    }
}

/// Writes `op` of the elements of `a` and `b` at each index into `dst`.
fn zip_into(op: &BinaryOp, a: &[u16], b: &[u16], dst: &mut [u16])
    requires
        a@.len() == b@.len(),
        a@.len() == old(dst)@.len(),
    ensures
        final(dst)@.len() == a@.len(),
        forall|i: int| 0 <= i < a@.len() ==> binary_spec(*op, #[trigger] final(dst)@[i], a@[i], b@[i]),
{
    let n = a.len();
    let mut i: usize = 0;
    while i < n
        invariant
            n == a@.len(),
            n == b@.len(),
            dst@.len() == n,
            i <= n,
            forall|j: int| 0 <= j < i ==> binary_spec(*op, #[trigger] dst@[j], a@[j], b@[j]),
        decreases n - i,
    {
        let v = binary_exec(op, a[i], b[i]);
        dst[i] = v;
        i = i + 1;
    }
}

/// Replaces each element of `data` with `op` of it and the element of
/// `other` at the same index.
fn zip_in_place(op: &BinaryOp, data: &mut [u16], other: &[u16])
    requires
        old(data)@.len() == other@.len(),
    ensures
        final(data)@.len() == old(data)@.len(),
        forall|i: int|
            0 <= i < other@.len() ==> binary_spec(*op, #[trigger] final(data)@[i], old(data)@[i], other@[i]),
{
    let ghost before = data@;
    let n = data.len();
    let mut i: usize = 0;
    while i < n
        invariant
            n == before.len(),
            n == other@.len(),
            data@.len() == n,
            i <= n,
            forall|j: int| 0 <= j < i ==> binary_spec(*op, #[trigger] data@[j], before[j], other@[j]),
            forall|j: int| i <= j < n ==> data@[j] == before[j],
        decreases n - i,
    {
        let v = binary_exec(op, data[i], other[i]);
        data[i] = v;
        i = i + 1;
    }
}

impl UnifiedBuffer {
    /// Converts elements into abs(element), written into `out_buf`.
    pub fn abs(&self, out_buf: &mut Self)
        requires
            self@.len() == old(out_buf)@.len(),
        ensures
            final(out_buf)@ == self@.map_values(|x: u16| abs_bits(x)),
            final(out_buf).spec_offset() == old(out_buf).spec_offset(),
    {
        map_into(&UnaryOp::Abs, self.slice(), out_buf.slice_mut());
        assert(out_buf@ =~= self@.map_values(|x: u16| abs_bits(x)));
    }

    /// Replaces elements with abs(element).
    pub fn abs_inplace(&mut self)
        ensures
            final(self)@ == old(self)@.map_values(|x: u16| abs_bits(x)),
            final(self).spec_offset() == old(self).spec_offset(),
    {
        let ghost before = self@;
        map_in_place(&UnaryOp::Abs, self.slice_mut());
        assert(self@ =~= before.map_values(|x: u16| abs_bits(x)));
    }

    /// Converts negatives (sign bit set) to 1.0 and the others to +0, written into `out_buf`.
    pub fn negative_mask(&self, out_buf: &mut Self)
        requires
            self@.len() == old(out_buf)@.len(),
        ensures
            final(out_buf)@ == self@.map_values(|x: u16| negative_mask_bits(x)),
            final(out_buf).spec_offset() == old(out_buf).spec_offset(),
    {
        map_into(&UnaryOp::NegativeMask, self.slice(), out_buf.slice_mut());
        assert(out_buf@ =~= self@.map_values(|x: u16| negative_mask_bits(x)));
    }

    /// Replaces negatives (sign bit set) with 1.0 and the others with +0.
    pub fn negative_mask_inplace(&mut self)
        ensures
            final(self)@ == old(self)@.map_values(|x: u16| negative_mask_bits(x)),
            final(self).spec_offset() == old(self).spec_offset(),
    {
        let ghost before = self@;
        map_in_place(&UnaryOp::NegativeMask, self.slice_mut());
        assert(self@ =~= before.map_values(|x: u16| negative_mask_bits(x)));
    }

    /// Converts negatives (sign bit set) to +0 and the others to 1.0, written into `out_buf`.
    pub fn positive_mask(&self, out_buf: &mut Self)
        requires
            self@.len() == old(out_buf)@.len(),
        ensures
            final(out_buf)@ == self@.map_values(|x: u16| positive_mask_bits(x)),
            final(out_buf).spec_offset() == old(out_buf).spec_offset(),
    {
        map_into(&UnaryOp::PositiveMask, self.slice(), out_buf.slice_mut());
        assert(out_buf@ =~= self@.map_values(|x: u16| positive_mask_bits(x)));
    }

    /// Replaces negatives (sign bit set) with +0 and the others with 1.0.
    pub fn positive_mask_inplace(&mut self)
        ensures
            final(self)@ == old(self)@.map_values(|x: u16| positive_mask_bits(x)),
            final(self).spec_offset() == old(self).spec_offset(),
    {
        let ghost before = self@;
        map_in_place(&UnaryOp::PositiveMask, self.slice_mut());
        assert(self@ =~= before.map_values(|x: u16| positive_mask_bits(x)));
    }

    /// Converts elements into max(0, element), written into `out_buf`.
    pub fn relu(&self, out_buf: &mut Self)
        requires
            self@.len() == old(out_buf)@.len(),
        ensures
            final(out_buf)@ == self@.map_values(|x: u16| relu_bits(x)),
            final(out_buf).spec_offset() == old(out_buf).spec_offset(),
    {
        map_into(&UnaryOp::Relu, self.slice(), out_buf.slice_mut());
        assert(out_buf@ =~= self@.map_values(|x: u16| relu_bits(x)));
    }

    /// Replaces elements with max(0, element).
    pub fn relu_inplace(&mut self)
        ensures
            final(self)@ == old(self)@.map_values(|x: u16| relu_bits(x)),
            final(self).spec_offset() == old(self).spec_offset(),
    {
        let ghost before = self@;
        map_in_place(&UnaryOp::Relu, self.slice_mut());
        assert(self@ =~= before.map_values(|x: u16| relu_bits(x)));
    }

    /// Converts elements into element + other, written into `out_buf`.
    pub fn add(&self, other: &Self, out_buf: &mut Self)
        requires
            self@.len() == other@.len(),
            self@.len() == old(out_buf)@.len(),
        ensures
            final(out_buf)@.len() == self@.len(),
            forall|i: int|
                0 <= i < self@.len() ==> is_sum(#[trigger] final(out_buf)@[i], self@[i], other@[i]),
            final(out_buf).spec_offset() == old(out_buf).spec_offset(),
    {
        zip_into(&BinaryOp::Add, self.slice(), other.slice(), out_buf.slice_mut());
    }

    /// Replaces elements with element + other.
    pub fn add_inplace(&mut self, other: &Self)
        requires
            old(self)@.len() == other@.len(),
        ensures
            final(self)@.len() == old(self)@.len(),
            forall|i: int|
                0 <= i < other@.len() ==> is_sum(#[trigger] final(self)@[i], old(self)@[i], other@[i]),
            final(self).spec_offset() == old(self).spec_offset(),
    {
        zip_in_place(&BinaryOp::Add, self.slice_mut(), other.slice());
    }

    /// Converts elements into element - other, written into `out_buf`.
    pub fn sub(&self, other: &Self, out_buf: &mut Self)
        requires
            self@.len() == other@.len(),
            self@.len() == old(out_buf)@.len(),
        ensures
            final(out_buf)@.len() == self@.len(),
            forall|i: int|
                0 <= i < self@.len() ==> is_difference(#[trigger] final(out_buf)@[i], self@[i], other@[i]),
            final(out_buf).spec_offset() == old(out_buf).spec_offset(),
    {
        zip_into(&BinaryOp::Sub, self.slice(), other.slice(), out_buf.slice_mut());
    }

    /// Replaces elements with element - other.
    pub fn sub_inplace(&mut self, other: &Self)
        requires
            old(self)@.len() == other@.len(),
        ensures
            final(self)@.len() == old(self)@.len(),
            forall|i: int|
                0 <= i < other@.len() ==> is_difference(#[trigger] final(self)@[i], old(self)@[i], other@[i]),
            final(self).spec_offset() == old(self).spec_offset(),
    {
        zip_in_place(&BinaryOp::Sub, self.slice_mut(), other.slice());
    }

    /// Converts elements into element * other, written into `out_buf`.
    pub fn mul(&self, other: &Self, out_buf: &mut Self)
        requires
            self@.len() == other@.len(),
            self@.len() == old(out_buf)@.len(),
        ensures
            final(out_buf)@.len() == self@.len(),
            forall|i: int|
                0 <= i < self@.len() ==> is_product(#[trigger] final(out_buf)@[i], self@[i], other@[i]),
            final(out_buf).spec_offset() == old(out_buf).spec_offset(),
    {
        zip_into(&BinaryOp::Mul, self.slice(), other.slice(), out_buf.slice_mut());
    }

    /// Replaces elements with element * other.
    pub fn mul_inplace(&mut self, other: &Self)
        requires
            old(self)@.len() == other@.len(),
        ensures
            final(self)@.len() == old(self)@.len(),
            forall|i: int|
                0 <= i < other@.len() ==> is_product(#[trigger] final(self)@[i], old(self)@[i], other@[i]),
            final(self).spec_offset() == old(self).spec_offset(),
    {
        zip_in_place(&BinaryOp::Mul, self.slice_mut(), other.slice());
    }

    /// Converts elements into element / other, written into `out_buf`.
    pub fn div(&self, other: &Self, out_buf: &mut Self)
        requires
            self@.len() == other@.len(),
            self@.len() == old(out_buf)@.len(),
        ensures
            final(out_buf)@.len() == self@.len(),
            forall|i: int|
                0 <= i < self@.len() ==> is_quotient(#[trigger] final(out_buf)@[i], self@[i], other@[i]),
            final(out_buf).spec_offset() == old(out_buf).spec_offset(),
    {
        zip_into(&BinaryOp::Div, self.slice(), other.slice(), out_buf.slice_mut());
    }

    /// Replaces elements with element / other.
    pub fn div_inplace(&mut self, other: &Self)
        requires
            old(self)@.len() == other@.len(),
        ensures
            final(self)@.len() == old(self)@.len(),
            forall|i: int|
                0 <= i < other@.len() ==> is_quotient(#[trigger] final(self)@[i], old(self)@[i], other@[i]),
            final(self).spec_offset() == old(self).spec_offset(),
    {
        zip_in_place(&BinaryOp::Div, self.slice_mut(), other.slice());
    }
}

} // verus!
