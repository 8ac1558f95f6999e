//! The allocator: five machine words, and the operations on them.
//!
//! Each operation states what it does to the [`Arena`] that the allocator
//! stands for. The allocator keeps that arena well formed at all times, so no
//! operation asks anything of the state it is called in.

use crate::align::{align_down, align_up, is_aligned, is_power_of_two, lemma_aligned_down};
use crate::arena::{lemma_alloc_bytes, lemma_alloc_pages, Arena};
use vstd::arithmetic::div_mod::{lemma_div_is_ordered, lemma_small_mod};
use vstd::arithmetic::mul::lemma_mul_strictly_positive;
use vstd::arithmetic::power2::is_pow2;
use vstd::prelude::*;

verus! {

/// Why an allocation was refused.
#[derive(Debug, Clone, Copy, PartialEq, Eq, Structural)]
pub enum AllocError {
    /// A size or count of zero, or an alignment that is no power of two.
    InvalidParam,
    /// The request does not fit between the two cursors.
    OutOfMemory,
}

/// A bump allocator over one region, serving bytes from the low end and pages
/// of `PAGE_SIZE` bytes from the high end.
///
/// `count` is the number of byte allocations outstanding. When it falls back
/// to zero the byte arena is emptied; pages are never taken back.
pub struct EarlyAllocator<const PAGE_SIZE: usize> {
    start: usize,
    end: usize,
    b_pos: usize,
    p_pos: usize,
    count: usize,
}

impl<const PAGE_SIZE: usize> View for EarlyAllocator<PAGE_SIZE> {
    type V = Arena;

    closed spec fn view(&self) -> Arena {
        Arena {
            start: self.start as int,
            end: self.end as int,
            byte_cursor: self.b_pos as int,
            page_cursor: self.p_pos as int,
            live: self.count as int,
        }
    }
}

impl<const PAGE_SIZE: usize> EarlyAllocator<PAGE_SIZE> {
    #[verifier::type_invariant]
    spec fn inv(self) -> bool {
        self@.wf()
    }

    /// An allocator without a region: every capacity is zero until `init`.
    pub fn new() -> (a: Self)
        ensures
            a@ == Arena::unset(),
            a@.wf(),
    {
        Self { start: 0, end: 0, b_pos: 0, p_pos: 0, count: 0 }
    }

    /// Takes `[start, start + size)` as the region to serve and forgets
    /// whatever was allocated before. The region has to end inside the
    /// address space.
    pub fn init(&mut self, start: usize, size: usize)
        requires
            start + size <= usize::MAX,
        ensures
            final(self)@ == Arena::fresh(start as int, size as int),
            final(self)@.wf(),
    {
        *self = Self { start, end: start + size, b_pos: start, p_pos: start + size, count: 0 };
    }

    /// Accepts a further region and ignores it: the allocator serves the one
    /// region it was initialised with.
    #[allow(unused_variables)]
    pub fn add_memory(&mut self, start: usize, size: usize) -> (res: Result<(), AllocError>)
        ensures
            res == Ok::<(), AllocError>(()),
            final(self)@ == old(self)@,
            final(self)@.wf(),
    {
        proof {
            use_type_invariant(&*self);
        }
        Ok(())
    }

    /// Allocates `size` bytes aligned to `align` and returns their address.
    ///
    /// The address is the byte cursor rounded up to `align`. The cursor moves
    /// to the end of the allocation, and one more allocation is outstanding.
    ///
    /// Fails with `InvalidParam` where `size` is zero or `align` is no power
    /// of two, and with `OutOfMemory` where the allocation would end above the
    /// page cursor, which includes an end beyond the address space. A call
    /// that fails changes nothing.
    pub fn alloc_bytes(&mut self, size: usize, align: usize) -> (res: Result<usize, AllocError>)
        ensures
            final(self)@.wf(),
            match res {
                Ok(addr) => {
                    &&& old(self)@.can_alloc_bytes(size as int, align as int)
                    &&& addr == old(self)@.byte_addr(align as int)
                    &&& final(self)@ == old(self)@.alloc_bytes(size as int, align as int)
                    &&& is_aligned(addr as int, align as int)
                    &&& old(self)@.byte_cursor <= addr
                    &&& addr + size == final(self)@.byte_cursor
                },
                Err(AllocError::InvalidParam) => {
                    &&& !Arena::valid_bytes(size as int, align as int)
                    &&& final(self)@ == old(self)@
                },
                Err(AllocError::OutOfMemory) => {
                    &&& Arena::valid_bytes(size as int, align as int)
                    &&& !old(self)@.bytes_fit(size as int, align as int)
                    &&& final(self)@ == old(self)@
                },
            },
    {
        proof {
            use_type_invariant(&*self);
        }
        if size == 0 || !is_power_of_two(align) {
            return Err(AllocError::InvalidParam);
        }
        proof {
            if self@.can_alloc_bytes(size as int, align as int) {
                lemma_alloc_bytes(self@, size as int, align as int);
            }
        }
        let alloc_start = match align_up(self.b_pos, align) {
            Some(pos) => pos,
            None => { return Err(AllocError::OutOfMemory); },
        };
        let alloc_end = match alloc_start.checked_add(size) {
            Some(pos) => pos,
            None => { return Err(AllocError::OutOfMemory); },
        };
        if alloc_end > self.p_pos {
            return Err(AllocError::OutOfMemory);
        }
        *self = Self { b_pos: alloc_end, count: self.count + 1, ..*self };
        Ok(alloc_start)
    }

    /// Takes back one byte allocation. Neither the address nor the layout is
    /// looked at: the allocations are only counted, and the byte arena is
    /// emptied when the last of them has come back.
    #[allow(unused_variables)]
    pub fn dealloc(&mut self, pos: usize, size: usize, align: usize)
        ensures
            final(self)@ == old(self)@.dealloc(),
            final(self)@.wf(),
    {
        proof {
            use_type_invariant(&*self);
        }
        if self.count > 1 {
            self.count -= 1;
        } else if self.count == 1 {
            *self = Self { b_pos: self.start, count: 0, ..*self };
        }
    }

    /// Bytes that the byte arena can hold at most: from the region's start to
    /// the page arena.
    pub fn total_bytes(&self) -> (n: usize)
        ensures
            n == self@.total_bytes(),
    {
        proof {
            use_type_invariant(self);
        }
        self.p_pos - self.start
    }

    /// Bytes taken up by byte allocations, padding included.
    pub fn used_bytes(&self) -> (n: usize)
        ensures
            n == self@.used_bytes(),
    {
        proof {
            use_type_invariant(self);
        }
        self.b_pos - self.start
    }

    /// Bytes free between the two arenas.
    pub fn available_bytes(&self) -> (n: usize)
        ensures
            n == self@.available_bytes(),
    {
        proof {
            use_type_invariant(self);
        }
        self.p_pos - self.b_pos
    }

    /// Allocates `num_pages` contiguous pages whose start is aligned to
    /// `align_pow2` pages, and returns that start.
    ///
    /// The start is the highest address that leaves room for the pages below
    /// the page cursor, rounded down to the alignment: what lies between the
    /// end of the pages and the old page cursor goes with the allocation. The
    /// page cursor moves to the start.
    ///
    /// Fails with `InvalidParam` where `num_pages` is zero or `align_pow2` is
    /// no power of two, and with `OutOfMemory` where the start would lie below
    /// the byte cursor. A call that fails changes nothing.
    pub fn alloc_pages(&mut self, num_pages: usize, align_pow2: usize) -> (res: Result<
        usize,
        AllocError,
    >)
        requires
            PAGE_SIZE > 0,
        ensures
            final(self)@.wf(),
            match res {
                Ok(addr) => {
                    &&& old(self)@.can_alloc_pages(
                        num_pages as int,
                        align_pow2 as int,
                        PAGE_SIZE as int,
                    )
                    &&& addr == old(self)@.page_addr(
                        num_pages as int,
                        align_pow2 as int,
                        PAGE_SIZE as int,
                    )
                    &&& final(self)@ == old(self)@.alloc_pages(
                        num_pages as int,
                        align_pow2 as int,
                        PAGE_SIZE as int,
                    )
                    &&& is_aligned(addr as int, align_pow2 * PAGE_SIZE)
                    &&& is_aligned(addr as int, PAGE_SIZE as int)
                    &&& addr == final(self)@.page_cursor
                    &&& addr + num_pages * PAGE_SIZE <= old(self)@.page_cursor
                },
                Err(AllocError::InvalidParam) => {
                    &&& !Arena::valid_pages(num_pages as int, align_pow2 as int)
                    &&& final(self)@ == old(self)@
                },
                Err(AllocError::OutOfMemory) => {
                    &&& Arena::valid_pages(num_pages as int, align_pow2 as int)
                    &&& !old(self)@.pages_fit(num_pages as int, align_pow2 as int, PAGE_SIZE as int)
                    &&& final(self)@ == old(self)@
                },
            },
    {
        proof {
            use_type_invariant(&*self);
        }
        if num_pages == 0 || !is_power_of_two(align_pow2) {
            return Err(AllocError::InvalidParam);
        }
        proof {
            reveal(is_pow2);
            lemma_mul_strictly_positive(align_pow2 as int, PAGE_SIZE as int);
            lemma_aligned_down(
                self.p_pos - num_pages * PAGE_SIZE,
                align_pow2 as int * PAGE_SIZE as int,
            );
            if self@.can_alloc_pages(num_pages as int, align_pow2 as int, PAGE_SIZE as int) {
                lemma_alloc_pages(self@, num_pages as int, align_pow2 as int, PAGE_SIZE as int);
            }
        }
        let alloc_size = match num_pages.checked_mul(PAGE_SIZE) {
            Some(size) => size,
            None => { return Err(AllocError::OutOfMemory); },
        };
        if alloc_size > self.p_pos {
            return Err(AllocError::OutOfMemory);
        }
        let top = self.p_pos - alloc_size;
        let alloc_start = match align_pow2.checked_mul(PAGE_SIZE) {
            Some(align) => align_down(top, align),
            None => {
                proof {
                    lemma_small_mod(top as nat, (align_pow2 * PAGE_SIZE) as nat);
                }
                0
            },
        };
        if alloc_start < self.b_pos {
            return Err(AllocError::OutOfMemory);
        }
        self.p_pos = alloc_start;
        Ok(alloc_start)
    }

    /// Accepts pages back and keeps them allocated: the page arena never
    /// shrinks.
    #[allow(unused_variables)]
    pub fn dealloc_pages(&mut self, pos: usize, num_pages: usize)
        ensures
            final(self)@ == old(self)@,
            final(self)@.wf(),
    {
        proof {
            use_type_invariant(&*self);
        }
    }

    /// Whole pages between the byte cursor and the region's end. The number
    /// falls as byte allocations advance the cursor.
    pub fn total_pages(&self) -> (n: usize)
        requires
            PAGE_SIZE > 0,
        ensures
            n == self@.total_pages(PAGE_SIZE as int),
    {
        proof {
            use_type_invariant(self);
        }
        (self.end - self.b_pos) / PAGE_SIZE
    }

    /// Whole pages between the page cursor and the region's end.
    pub fn used_pages(&self) -> (n: usize)
        requires
            PAGE_SIZE > 0,
        ensures
            n == self@.used_pages(PAGE_SIZE as int),
    {
        proof {
            use_type_invariant(self);
        }
        (self.end - self.p_pos) / PAGE_SIZE
    }

    /// Total pages less used pages.
    pub fn available_pages(&self) -> (n: usize)
        requires
            PAGE_SIZE > 0,
        ensures
            n == self@.available_pages(PAGE_SIZE as int),
    {
        proof {
            use_type_invariant(self);
            lemma_div_is_ordered(
                self.end - self.p_pos,
                self.end - self.b_pos,
                PAGE_SIZE as int,
            );
        }
        self.total_pages() - self.used_pages()
    }
}

} // verus!
