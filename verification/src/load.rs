//! Buffers of any length, with their arena space padded to whole blocks.
use vstd::prelude::*;
use crate::memory::{Arena, UnifiedBuffer};

verus! {

/// Number of elements in one block of arena space.
pub const BLOCK_ELEMENTS: usize = 2048;

/// `len` rounded up to a whole number of blocks.
pub open spec fn padded_len(len: nat) -> nat {
    ((len + 2047) / 2048 * 2048) as nat
}

/// The padded length is the least multiple of 2048 not below `len`: a
/// whole number of blocks, at least `len`, and less than one block more.
/// A length that is already a multiple of 2048 is not padded.
pub proof fn law_padded_len(len: nat)
    ensures
        padded_len(len) % 2048 == 0,
        len <= padded_len(len),
        padded_len(len) < len + 2048,
        len % 2048 == 0 ==> padded_len(len) == len,
{
    let q = (len + 2047) / 2048;
    assert(q * 2048 <= len + 2047 < q * 2048 + 2048) by (nonlinear_arith)
        requires
            q == (len + 2047) / 2048,
    ;
    vstd::arithmetic::div_mod::lemma_mod_multiples_basic(q as int, 2048);
    if len % 2048 == 0 {
        let k = len / 2048;
        assert(len == k * 2048) by (nonlinear_arith)
            requires
                k == len / 2048,
                len % 2048 == 0,
        ;
        assert(q == k) by (nonlinear_arith)
            requires
                q * 2048 <= len + 2047 < q * 2048 + 2048,
                len == k * 2048,
        ;
    }
}

/// Whether a buffer of `len` elements can be placed in an arena with
/// `free` bytes left: the padded byte size must be computable in `usize` and
/// fit in the free space.
pub open spec fn fits(len: nat, free: nat) -> bool {
    &&& len + 2047 <= usize::MAX
    &&& 2 * padded_len(len) <= usize::MAX
    &&& 2 * padded_len(len) <= free
}

/// Provides a buffer of `len` elements, all +0, whose arena space is `len`
/// rounded up to a multiple of 2048 elements. An empty buffer takes no space.
/// Returns `None`, leaving the arena unchanged, when the padded size overflows
/// `usize` or exceeds the free space of `arena`.
pub fn alloc_buffer(arena: &mut Arena, len: usize) -> (r: Option<UnifiedBuffer>)
    ensures
        final(arena).spec_capacity() == old(arena).spec_capacity(),
        len == 0 ==> r is Some && final(arena).spec_used() == old(arena).spec_used(),
        len > 0 ==> (r is Some <==> fits(
            len as nat,
            (old(arena).spec_capacity() - old(arena).spec_used()) as nat,
        )),
        r is None ==> final(arena).spec_used() == old(arena).spec_used(),
        len > 0 && len % 2048 == 0 && len + 2047 <= usize::MAX && 2 * len <= old(
            arena,
        ).spec_capacity() - old(arena).spec_used() ==> r is Some && final(arena).spec_used()
            == old(arena).spec_used() + 2 * len,
        match r {
            Some(buf) => {
                &&& buf@ == Seq::new(len as nat, |i: int| 0u16)
                &&& len > 0 ==> buf.spec_offset() == old(arena).spec_used()
                &&& buf.spec_offset() % 4096 == 0
                &&& len > 0 ==> final(arena).spec_used() == old(arena).spec_used() + 2
                    * padded_len(len as nat)
                &&& len > 0 ==> exists|p: nat|
                    #![trigger p % 2048]
                    p % 2048 == 0 && len <= p < len + 2048 && final(arena).spec_used()
                        == old(arena).spec_used() + 2 * p
            },
            None => true,
        },
{
    if len == 0 {
        return Some(UnifiedBuffer::zeroed(0, 0));
    }
    let bumped = match len.checked_add(BLOCK_ELEMENTS - 1) {
        Some(v) => v,
        None => return None,
    };
    let padded = bumped / BLOCK_ELEMENTS * BLOCK_ELEMENTS;
    proof {
        law_padded_len(len as nat);
        old(arena).lemma_sizes_fit();
    }
    let byte_size = match padded.checked_mul(2) {
        Some(v) => v,
        None => return None,
    };
    proof {
        assert(byte_size == (bumped / 2048) * 4096) by (nonlinear_arith)
            requires
                byte_size == padded * 2,
                padded == bumped / 2048 * 2048,
        ;
        vstd::arithmetic::div_mod::lemma_mod_multiples_basic((bumped / 2048) as int, 4096);
    }
    match arena.allocate(byte_size) {
        Some(offset) => Some(UnifiedBuffer::zeroed(offset, len)),
        None => None,
    }
}

} // verus!
