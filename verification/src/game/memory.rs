use vstd::prelude::*;
use vstd::layout::size_of;

verus! {

/// A bump allocator over a block of `size` bytes: allocations are handed out
/// one after another from the start and never given back. An allocation is
/// identified by its byte offset in the block.
pub struct MemoryArena {
    size: usize,
    used: usize,
}

impl MemoryArena {
    /// An arena never hands out more than it manages.
    #[verifier::type_invariant]
    spec fn inv(self) -> bool {
        self.used <= self.size
    }

    /// The number of bytes the arena manages.
    pub closed spec fn arena_size(&self) -> nat {
        self.size as nat
    }

    /// The number of bytes handed out so far.
    pub closed spec fn arena_used(&self) -> nat {
        self.used as nat
    }

    /// An empty arena over `new_size` bytes.
    pub fn new(new_size: usize) -> (r: MemoryArena)
        ensures
            r.arena_size() == new_size,
            r.arena_used() == 0,
    {
        MemoryArena { size: new_size, used: 0 }
    }

    /// The number of bytes the arena manages.
    pub fn size(&self) -> (r: usize)
        ensures
            r == self.arena_size(),
            self.arena_used() <= r,
    {
        proof {
            use_type_invariant(self);
        }
        self.size
    }

    /// The number of bytes handed out so far.
    pub fn used(&self) -> (r: usize)
        ensures
            r == self.arena_used(),
            r <= self.arena_size(),
    {
        proof {
            use_type_invariant(self);
        }
        self.used
    }

    /// Hands out room for one value of type `T` and gives its offset.
    pub fn push_struct<T>(&mut self) -> (r: usize)
        requires
            old(self).arena_used() + size_of::<T>() <= old(self).arena_size(),
        ensures
            r == old(self).arena_used(),
            final(self).arena_used() == old(self).arena_used() + size_of::<T>(),
            final(self).arena_size() == old(self).arena_size(),
    {
        let size = core::mem::size_of::<T>();
        let result = self.used;
        self.used = self.used + size;
        result
    }

    /// Hands out room for `count` values of type `T` in a row and gives the
    /// offset of the first.
    pub fn push_slice<T>(&mut self, count: usize) -> (r: usize)
        requires
            old(self).arena_used() + count * size_of::<T>() <= old(self).arena_size(),
        ensures
            r == old(self).arena_used(),
            final(self).arena_used() == old(self).arena_used() + count * size_of::<T>(),
            final(self).arena_size() == old(self).arena_size(),
    {
        let size = core::mem::size_of::<T>();
        proof {
            assert(count * size <= usize::MAX) by (nonlinear_arith)
                requires
                    self.used + count * size <= self.size,
                    self.size <= usize::MAX,
                    self.used >= 0,
            ;
        }
        let mem_size = count * size;
        let result = self.used;
        self.used = self.used + mem_size;
        result
    }
}

} // verus!
