//! The arena that hands out buffer space, and the half-precision buffers.
//!
//! An arena is a bump allocator over a fixed number of bytes: each request
//! takes the next bytes after the previous one, and a reset makes the whole
//! arena available again. A buffer records where its bytes start in the arena
//! and holds its elements, two bytes each.
use vstd::prelude::*;

verus! {

/// Granularity, in bytes, of arena space: every capacity, request and start
/// offset is a multiple of it (one block of 2048 half elements).
pub const ARENA_ALIGN: usize = 4096;

/// A bump allocator over `capacity` bytes, of which the first `used` are
/// taken.
pub struct Arena {
    capacity: usize,
    used: usize,
}

impl Arena {
    #[verifier::type_invariant]
    spec fn inv(self) -> bool {
        &&& self.used <= self.capacity
        &&& self.used % 4096 == 0
        &&& self.capacity % 4096 == 0
    }

    /// Number of bytes the arena holds.
    pub closed spec fn spec_capacity(self) -> nat {
        self.capacity as nat
    }

    /// Number of bytes handed out since creation or the last reset.
    pub closed spec fn spec_used(self) -> nat {
        self.used as nat
    }

    /// The capacity and the used space are sizes that fit in `usize`.
    pub proof fn lemma_sizes_fit(&self)
        ensures
            self.spec_capacity() <= usize::MAX,
            self.spec_used() <= usize::MAX,
    {
    }

    /// Creates an arena for `len` half elements, that is `2 * len` bytes.
    pub fn new(len: usize) -> (arena: Self)
        requires
            len != 0,
            len % 2048 == 0,
            len <= usize::MAX / 2,
        ensures
            arena.spec_capacity() == 2 * len,
            arena.spec_capacity() % 4096 == 0,
            arena.spec_used() == 0,
    {
        Arena { capacity: len * 2, used: 0 }
    }

    /// Number of bytes the arena holds.
    pub fn capacity(&self) -> (r: usize)
        ensures
            r == self.spec_capacity(),
    {
        self.capacity
    }

    /// Number of bytes handed out since creation or the last reset.
    pub fn used(&self) -> (r: usize)
        ensures
            r == self.spec_used(),
            r <= self.spec_capacity(),
            r % 4096 == 0,
    {
        proof {
            use_type_invariant(self);
        }
        self.used
    }

    /// Number of bytes still free.
    pub fn remaining(&self) -> (r: usize)
        ensures
            r == self.spec_capacity() - self.spec_used(),
            self.spec_used() <= self.spec_capacity(),
    {
        proof {
            use_type_invariant(self);
        }
        self.capacity - self.used
    }

    /// Takes the next `size` bytes, a whole number of 4096-byte blocks:
    /// returns their starting byte offset, or `None` (leaving the arena
    /// unchanged) when fewer than `size` bytes are free.
    pub fn allocate(&mut self, size: usize) -> (r: Option<usize>)
        requires
            size % 4096 == 0,
        ensures
            final(self).spec_capacity() == old(self).spec_capacity(),
            final(self).spec_used() % 4096 == 0,
            old(self).spec_used() % 4096 == 0,
            final(self).spec_used() <= final(self).spec_capacity(),
            old(self).spec_used() <= old(self).spec_capacity(),
            match r {
                Some(start) => {
                    &&& size <= old(self).spec_capacity() - old(self).spec_used()
                    &&& start == old(self).spec_used()
                    &&& start % 4096 == 0
                    &&& final(self).spec_used() == old(self).spec_used() + size
                },
                None => {
                    &&& size > old(self).spec_capacity() - old(self).spec_used()
                    &&& final(self).spec_used() == old(self).spec_used()
                },
            },
    {
        proof {
            use_type_invariant(&*self);
        }
        if size > self.capacity - self.used {
            return None;
        }
        let start = self.used;
        self.used = start + size;
        Some(start)
    }

    /// Makes the whole arena available again.
    pub fn reset(&mut self)
        ensures
            final(self).spec_capacity() == old(self).spec_capacity(),
            final(self).spec_used() == 0,
    {
        proof {
            use_type_invariant(&*self);
        }
        self.used = 0;
    }
}

/// A buffer of half-precision elements placed in an arena.
pub struct UnifiedBuffer {
    pub(crate) offset: usize,
    pub(crate) data: Vec<u16>,
}

impl View for UnifiedBuffer {
    type V = Seq<u16>;

    /// The elements of the buffer.
    closed spec fn view(&self) -> Seq<u16> {
        self.data@
    }
}

impl UnifiedBuffer {
    /// Byte offset of the buffer's space within its arena.
    pub closed spec fn spec_offset(&self) -> nat {
        self.offset as nat
    }

    /// A buffer over `offset` holding `len` zeros.
    pub(crate) fn zeroed(offset: usize, len: usize) -> (buf: Self)
        ensures
            buf.spec_offset() == offset,
            buf@ == Seq::new(len as nat, |i: int| 0u16),
    {
        let mut data: Vec<u16> = Vec::new();
        let mut i: usize = 0;
        while i < len
            invariant
                i <= len,
                data@ == Seq::new(i as nat, |j: int| 0u16),
            decreases len - i,
        {
            data.push(0);
            i = i + 1;
        }
        UnifiedBuffer { offset, data }
    }

    /// Provides a buffer of `len` elements (`2 * len` bytes) taken from
    /// `arena`; its elements are all +0.
    pub fn new(arena: &mut Arena, len: usize) -> (buf: Self)
        requires
            len != 0,
            len % 2048 == 0,
            len / 2048 <= u32::MAX,
            2 * len <= old(arena).spec_capacity() - old(arena).spec_used(),
        ensures
            buf@ == Seq::new(len as nat, |i: int| 0u16),
            buf.spec_offset() == old(arena).spec_used(),
            buf.spec_offset() % 4096 == 0,
            final(arena).spec_used() == old(arena).spec_used() + 2 * len,
            final(arena).spec_used() <= final(arena).spec_capacity(),
            final(arena).spec_capacity() == old(arena).spec_capacity(),
    {
        let offset = arena.allocate(len * 2).unwrap();
        UnifiedBuffer::zeroed(offset, len)
    }

    /// Number of elements.
    pub fn len(&self) -> (r: usize)
        ensures
            r == self@.len(),
    {
        self.data.len()
    }

    /// Byte offset of the buffer's space within its arena.
    pub fn offset(&self) -> (r: usize)
        ensures
            r == self.spec_offset(),
    {
        self.offset
    }

    /// The elements, for reading.
    pub fn slice(&self) -> (s: &[u16])
        ensures
            s@ == self@,
    {
        self.data.as_slice()
    }

    /// The elements, for writing.
    pub fn slice_mut(&mut self) -> (s: &mut [u16])
        ensures
            s@ == old(self)@,
            final(s)@ == final(self)@,
            final(self).spec_offset() == old(self).spec_offset(),
    {
        self.data.as_mut_slice()
    }
}

} // verus!
