//! The allocator's state as plain mathematics.
//!
//! Every contract of the allocator is stated over [`Arena`], a record of five
//! unbounded integers, and over the functions below, which say what each
//! operation does to it.

use crate::align::{
    aligned_down, aligned_up, is_aligned, lemma_aligned_down, lemma_aligned_is_fixed,
    lemma_aligned_up,
};
use vstd::arithmetic::div_mod::{lemma_fundamental_div_mod, lemma_mod_multiples_basic};
use vstd::arithmetic::mul::{
    lemma_mul_is_associative, lemma_mul_is_commutative, lemma_mul_strictly_positive,
};
use vstd::arithmetic::power2::is_pow2;
use vstd::prelude::*;

verus! {

/// The region `[start, end)` with its two cursors: bytes are handed out upward
/// from `start`, pages downward from `end`.
pub struct Arena {
    /// First address of the region.
    pub start: int,
    /// First address past the region.
    pub end: int,
    /// Next free address of the byte arena.
    pub byte_cursor: int,
    /// Lowest address of the page arena.
    pub page_cursor: int,
    /// Number of byte allocations that have not been returned.
    pub live: int,
}

impl Arena {
    /// The cursors stay in order inside the region, every live byte allocation
    /// accounts for at least one byte in use, and with none live the byte arena
    /// is empty.
    pub open spec fn wf(self) -> bool {
        &&& 0 <= self.start <= self.byte_cursor <= self.page_cursor <= self.end
        &&& 0 <= self.live <= self.byte_cursor - self.start
        &&& self.live == 0 ==> self.byte_cursor == self.start
    }

    /// The state before any region has been given: everything is zero.
    pub open spec fn unset() -> Arena {
        Arena { start: 0, end: 0, byte_cursor: 0, page_cursor: 0, live: 0 }
    }

    /// The state right after initialisation with `size` bytes at `start`.
    pub open spec fn fresh(start: int, size: int) -> Arena {
        Arena {
            start,
            end: start + size,
            byte_cursor: start,
            page_cursor: start + size,
            live: 0,
        }
    }

    /// Bytes between the region's start and the page arena.
    pub open spec fn total_bytes(self) -> int {
        self.page_cursor - self.start
    }

    /// Bytes between the region's start and the byte cursor.
    pub open spec fn used_bytes(self) -> int {
        self.byte_cursor - self.start
    }

    /// Bytes between the two cursors.
    pub open spec fn available_bytes(self) -> int {
        self.page_cursor - self.byte_cursor
    }

    /// Whole pages between the byte cursor and the region's end.
    pub open spec fn total_pages(self, page_size: int) -> int {
        (self.end - self.byte_cursor) / page_size
    }

    /// Whole pages between the page cursor and the region's end.
    pub open spec fn used_pages(self, page_size: int) -> int {
        (self.end - self.page_cursor) / page_size
    }

    /// Total pages less used pages.
    pub open spec fn available_pages(self, page_size: int) -> int {
        self.total_pages(page_size) - self.used_pages(page_size)
    }

    /// A byte request names at least one byte and a power-of-two alignment.
    pub open spec fn valid_bytes(size: int, align: int) -> bool {
        size > 0 && is_pow2(align)
    }

    /// Where a byte allocation aligned to `align` would start.
    pub open spec fn byte_addr(self, align: int) -> int {
        aligned_up(self.byte_cursor, align)
    }

    /// Whether `size` bytes aligned to `align` end at or below the page cursor.
    pub open spec fn bytes_fit(self, size: int, align: int) -> bool {
        self.byte_addr(align) + size <= self.page_cursor
    }

    /// Whether a byte allocation succeeds.
    pub open spec fn can_alloc_bytes(self, size: int, align: int) -> bool {
        Self::valid_bytes(size, align) && self.bytes_fit(size, align)
    }

    /// The state after a byte allocation that succeeded.
    pub open spec fn alloc_bytes(self, size: int, align: int) -> Arena {
        Arena { byte_cursor: self.byte_addr(align) + size, live: self.live + 1, ..self }
    }

    /// The state after a byte allocation was returned: the last one to come
    /// back empties the byte arena, any other only lowers the count, and with
    /// none outstanding nothing changes.
    pub open spec fn dealloc(self) -> Arena {
        if self.live <= 0 {
            self
        } else if self.live == 1 {
            Arena { byte_cursor: self.start, live: 0, ..self }
        } else {
            Arena { live: self.live - 1, ..self }
        }
    }

    /// A page request names at least one page and a power-of-two alignment,
    /// counted in pages.
    pub open spec fn valid_pages(num_pages: int, align_pow2: int) -> bool {
        num_pages > 0 && is_pow2(align_pow2)
    }

    /// Where a run of `num_pages` pages would start: as high as the page
    /// cursor leaves room for, rounded down to `align_pow2` pages.
    pub open spec fn page_addr(self, num_pages: int, align_pow2: int, page_size: int) -> int {
        aligned_down(self.page_cursor - num_pages * page_size, align_pow2 * page_size)
    }

    /// Whether that run starts at or above the byte cursor.
    pub open spec fn pages_fit(self, num_pages: int, align_pow2: int, page_size: int) -> bool {
        self.byte_cursor <= self.page_addr(num_pages, align_pow2, page_size)
    }

    /// Whether a page allocation succeeds.
    pub open spec fn can_alloc_pages(self, num_pages: int, align_pow2: int, page_size: int) -> bool {
        Self::valid_pages(num_pages, align_pow2) && self.pages_fit(num_pages, align_pow2, page_size)
    }

    /// The state after a page allocation that succeeded.
    pub open spec fn alloc_pages(self, num_pages: int, align_pow2: int, page_size: int) -> Arena {
        Arena { page_cursor: self.page_addr(num_pages, align_pow2, page_size), ..self }
    }
}

/// A freshly initialised region of `size` bytes is all free: its byte capacity
/// is `size`, no byte is in use, and `size / page_size` pages are available.
pub proof fn lemma_fresh_region(start: int, size: int, page_size: int)
    requires
        0 <= start,
        0 <= size,
        0 < page_size,
    ensures
        Arena::fresh(start, size).wf(),
        Arena::fresh(start, size).total_bytes() == size,
        Arena::fresh(start, size).used_bytes() == 0,
        Arena::fresh(start, size).available_bytes() == size,
        Arena::fresh(start, size).used_pages(page_size) == 0,
        Arena::fresh(start, size).available_pages(page_size) == size / page_size,
{
}

/// A granted byte allocation starts at or above the old byte cursor, at a
/// multiple of its alignment, ends at the new byte cursor, and leaves the
/// state well formed.
pub proof fn lemma_alloc_bytes(a: Arena, size: int, align: int)
    requires
        a.wf(),
        a.can_alloc_bytes(size, align),
    ensures
        a.alloc_bytes(size, align).wf(),
        is_aligned(a.byte_addr(align), align),
        a.byte_cursor <= a.byte_addr(align) < a.byte_cursor + align,
        a.byte_addr(align) + size == a.alloc_bytes(size, align).byte_cursor,
        a.alloc_bytes(size, align).byte_cursor <= a.page_cursor,
{
    reveal(is_pow2);
    lemma_aligned_up(a.byte_cursor, align);
}

/// Returning a byte allocation leaves the state well formed.
pub proof fn lemma_dealloc(a: Arena)
    requires
        a.wf(),
    ensures
        a.dealloc().wf(),
{
}

/// A granted page allocation starts at a multiple of its alignment and of the
/// page size, holds the pages asked for between its start and the old page
/// cursor, and leaves the state well formed.
pub proof fn lemma_alloc_pages(a: Arena, num_pages: int, align_pow2: int, page_size: int)
    requires
        a.wf(),
        0 < page_size,
        a.can_alloc_pages(num_pages, align_pow2, page_size),
    ensures
        a.alloc_pages(num_pages, align_pow2, page_size).wf(),
        is_aligned(a.page_addr(num_pages, align_pow2, page_size), align_pow2 * page_size),
        is_aligned(a.page_addr(num_pages, align_pow2, page_size), page_size),
        a.byte_cursor <= a.page_addr(num_pages, align_pow2, page_size),
        a.page_addr(num_pages, align_pow2, page_size) + num_pages * page_size <= a.page_cursor,
{
    reveal(is_pow2);
    let align = align_pow2 * page_size;
    let top = a.page_cursor - num_pages * page_size;
    let addr = a.page_addr(num_pages, align_pow2, page_size);
    lemma_mul_strictly_positive(align_pow2, page_size);
    lemma_mul_strictly_positive(num_pages, page_size);
    lemma_aligned_down(top, align);
    // a multiple of `align_pow2 * page_size` is a multiple of `page_size`
    lemma_fundamental_div_mod(addr, align);
    lemma_mul_is_associative(addr / align, align_pow2, page_size);
    lemma_mul_is_commutative(align, addr / align);
    lemma_mod_multiples_basic((addr / align) * align_pow2, page_size);
}

/// Below a page cursor that is itself a multiple of the page size, pages
/// aligned to one page are granted as long as they fit between the cursors,
/// and they are placed right below the page cursor.
pub proof fn lemma_pages_granted_while_room(a: Arena, num_pages: int, page_size: int)
    requires
        a.wf(),
        0 < page_size,
        0 < num_pages,
        is_aligned(a.page_cursor, page_size),
        num_pages * page_size <= a.available_bytes(),
    ensures
        a.can_alloc_pages(num_pages, 1, page_size),
        a.page_addr(num_pages, 1, page_size) == a.page_cursor - num_pages * page_size,
        is_aligned(a.page_addr(num_pages, 1, page_size), page_size),
{
    reveal(is_pow2);
    let top = a.page_cursor - num_pages * page_size;
    lemma_fundamental_div_mod(a.page_cursor, page_size);
    let q = a.page_cursor / page_size;
    assert(top == (q - num_pages) * page_size) by (nonlinear_arith)
        requires
            a.page_cursor == page_size * q,
            top == a.page_cursor - num_pages * page_size,
    ;
    lemma_mod_multiples_basic(q - num_pages, page_size);
    lemma_aligned_is_fixed(top, page_size);
}

/// The room that a page allocation takes reaches from its aligned start to
/// the page cursor. The allocation is refused exactly when less than that is
/// left between the cursors, and so whenever less than the pages themselves is
/// left.
pub proof fn lemma_pages_refused_without_room(
    a: Arena,
    num_pages: int,
    align_pow2: int,
    page_size: int,
)
    requires
        a.wf(),
        0 < page_size,
        Arena::valid_pages(num_pages, align_pow2),
    ensures
        !a.pages_fit(num_pages, align_pow2, page_size) <==> a.available_bytes() < a.page_cursor
            - a.page_addr(num_pages, align_pow2, page_size),
        a.available_bytes() < num_pages * page_size ==> !a.can_alloc_pages(
            num_pages,
            align_pow2,
            page_size,
        ),
{
    reveal(is_pow2);
    lemma_mul_strictly_positive(align_pow2, page_size);
    lemma_aligned_down(a.page_cursor - num_pages * page_size, align_pow2 * page_size);
}

} // verus!
