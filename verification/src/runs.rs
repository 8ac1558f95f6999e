//! Runs of calls, and what holds of them.
//!
//! Each method of the allocator states what one call does to the [`Arena`]
//! behind it. Here calls are chained: the lemmas speak of the same model
//! functions as the methods do, so each of them carries over to any such run
//! of calls on an allocator.

use crate::align::is_aligned;
use crate::arena::{lemma_alloc_bytes, lemma_alloc_pages, lemma_dealloc, Arena};
use vstd::prelude::*;

verus! {

/// A request for bytes.
pub struct ByteRequest {
    /// Number of bytes asked for.
    pub size: int,
    /// Alignment asked for.
    pub align: int,
}

/// One call on the allocator, with its arguments.
pub enum Op {
    /// `init(start, size)`.
    Init { start: int, size: int },
    /// `add_memory(start, size)`.
    AddMemory { start: int, size: int },
    /// `alloc_bytes(size, align)`.
    AllocBytes { size: int, align: int },
    /// `dealloc(..)`.
    Dealloc,
    /// `alloc_pages(num_pages, align_pow2)`.
    AllocPages { num_pages: int, align_pow2: int },
    /// `dealloc_pages(..)`.
    DeallocPages,
}

impl Op {
    /// Whether the call's arguments are ones that the allocator accepts: a
    /// region handed to `init` has to lie in the address space.
    pub open spec fn admissible(self) -> bool {
        self matches Op::Init { start, size } ==> 0 <= start && 0 <= size
    }
}

impl Arena {
    /// The state after the requests `reqs` were granted one after another.
    pub open spec fn alloc_all(self, reqs: Seq<ByteRequest>) -> Arena
        decreases reqs.len(),
    {
        if reqs.len() == 0 {
            self
        } else {
            self.alloc_all(reqs.drop_last()).alloc_bytes(reqs.last().size, reqs.last().align)
        }
    }

    /// Whether each of `reqs`, made in this order, is granted.
    pub open spec fn grants_all(self, reqs: Seq<ByteRequest>) -> bool
        decreases reqs.len(),
    {
        reqs.len() == 0 || {
            &&& self.grants_all(reqs.drop_last())
            &&& self.alloc_all(reqs.drop_last()).can_alloc_bytes(
                reqs.last().size,
                reqs.last().align,
            )
        }
    }

    /// The address handed out for the request at index `i` of `reqs`.
    pub open spec fn addr_of(self, reqs: Seq<ByteRequest>, i: int) -> int {
        self.alloc_all(reqs.take(i)).byte_addr(reqs[i].align)
    }

    /// The state after `k` byte allocations were returned.
    pub open spec fn dealloc_n(self, k: nat) -> Arena
        decreases k,
    {
        if k == 0 {
            self
        } else {
            self.dealloc_n((k - 1) as nat).dealloc()
        }
    }

    /// The state after one call, whether it succeeded or was refused.
    pub open spec fn step(self, op: Op, page_size: int) -> Arena {
        match op {
            Op::Init { start, size } => Arena::fresh(start, size),
            Op::AddMemory { .. } => self,
            Op::AllocBytes { size, align } => if self.can_alloc_bytes(size, align) {
                self.alloc_bytes(size, align)
            } else {
                self
            },
            Op::Dealloc => self.dealloc(),
            Op::AllocPages { num_pages, align_pow2 } => if self.can_alloc_pages(
                num_pages,
                align_pow2,
                page_size,
            ) {
                self.alloc_pages(num_pages, align_pow2, page_size)
            } else {
                self
            },
            Op::DeallocPages => self,
        }
    }

    /// The state after the calls `ops`, made in this order.
    pub open spec fn run(self, ops: Seq<Op>, page_size: int) -> Arena
        decreases ops.len(),
    {
        if ops.len() == 0 {
            self
        } else {
            self.run(ops.drop_last(), page_size).step(ops.last(), page_size)
        }
    }
}

/// Whatever is called, in whatever order, the cursors never cross: the state
/// stays well formed, so the byte cursor stays at or below the page cursor.
pub proof fn lemma_run_keeps_arenas_apart(a: Arena, ops: Seq<Op>, page_size: int)
    requires
        a.wf(),
        0 < page_size,
        forall|i: int| 0 <= i < ops.len() ==> (#[trigger] ops[i]).admissible(),
    ensures
        a.run(ops, page_size).wf(),
        a.run(ops, page_size).byte_cursor <= a.run(ops, page_size).page_cursor,
    decreases ops.len(),
{
    if ops.len() > 0 {
        lemma_run_keeps_arenas_apart(a, ops.drop_last(), page_size);
        let before = a.run(ops.drop_last(), page_size);
        assert(ops.last().admissible());
        match ops.last() {
            Op::AllocBytes { size, align } => {
                if before.can_alloc_bytes(size, align) {
                    lemma_alloc_bytes(before, size, align);
                }
            },
            Op::Dealloc => {
                lemma_dealloc(before);
            },
            Op::AllocPages { num_pages, align_pow2 } => {
                if before.can_alloc_pages(num_pages, align_pow2, page_size) {
                    lemma_alloc_pages(before, num_pages, align_pow2, page_size);
                }
            },
            _ => {},
        }
    }
}

/// What a run of granted byte allocations does to the state: nothing but the
/// byte cursor and the count moves, the cursor only upward, and the count by
/// one for each request.
pub proof fn lemma_alloc_all(a: Arena, reqs: Seq<ByteRequest>)
    requires
        a.wf(),
        a.grants_all(reqs),
    ensures
        a.alloc_all(reqs).wf(),
        a.alloc_all(reqs).start == a.start,
        a.alloc_all(reqs).end == a.end,
        a.alloc_all(reqs).page_cursor == a.page_cursor,
        a.alloc_all(reqs).live == a.live + reqs.len(),
        a.alloc_all(reqs).byte_cursor >= a.byte_cursor,
    decreases reqs.len(),
{
    if reqs.len() > 0 {
        lemma_alloc_all(a, reqs.drop_last());
        lemma_alloc_bytes(a.alloc_all(reqs.drop_last()), reqs.last().size, reqs.last().align);
    }
}

/// Where a run of requests is granted, so is every run that it begins with.
proof fn lemma_grants_prefix(a: Arena, reqs: Seq<ByteRequest>, i: int)
    requires
        a.grants_all(reqs),
        0 <= i <= reqs.len(),
    ensures
        a.grants_all(reqs.take(i)),
    decreases reqs.len(),
{
    if i == reqs.len() {
        assert(reqs.take(i) =~= reqs);
    } else {
        lemma_grants_prefix(a, reqs.drop_last(), i);
        assert(reqs.drop_last().take(i) =~= reqs.take(i));
    }
}

/// The byte cursor after the first `i` of a run of granted requests is at or
/// below the cursor after the first `j`, for `i <= j`.
proof fn lemma_cursor_rises(a: Arena, reqs: Seq<ByteRequest>, i: int, j: int)
    requires
        a.wf(),
        a.grants_all(reqs),
        0 <= i <= j <= reqs.len(),
    ensures
        a.alloc_all(reqs.take(i)).byte_cursor <= a.alloc_all(reqs.take(j)).byte_cursor,
    decreases j - i,
{
    if i < j {
        lemma_cursor_rises(a, reqs, i, j - 1);
        lemma_grants_prefix(a, reqs, j);
        lemma_grants_prefix(a, reqs, j - 1);
        lemma_alloc_all(a, reqs.take(j - 1));
        assert(reqs.take(j).drop_last() =~= reqs.take(j - 1));
        lemma_alloc_bytes(a.alloc_all(reqs.take(j - 1)), reqs[j - 1].size, reqs[j - 1].align);
    }
}

/// Each allocation of a run of granted byte requests lies between the byte
/// cursor from which the run began and the page cursor, and starts at a
/// multiple of the alignment it was asked with.
pub proof fn lemma_byte_allocations_aligned(a: Arena, reqs: Seq<ByteRequest>, i: int)
    requires
        a.wf(),
        a.grants_all(reqs),
        0 <= i < reqs.len(),
    ensures
        is_aligned(a.addr_of(reqs, i), reqs[i].align),
        a.byte_cursor <= a.addr_of(reqs, i),
        a.addr_of(reqs, i) + reqs[i].size <= a.page_cursor,
{
    lemma_grants_prefix(a, reqs, i);
    lemma_grants_prefix(a, reqs, i + 1);
    lemma_alloc_all(a, reqs.take(i));
    assert(reqs.take(i + 1).drop_last() =~= reqs.take(i));
    lemma_alloc_bytes(a.alloc_all(reqs.take(i)), reqs[i].size, reqs[i].align);
}

/// Two allocations of a run of granted byte requests do not overlap: the
/// earlier one ends at or below the start of the later one.
pub proof fn lemma_byte_allocations_disjoint(a: Arena, reqs: Seq<ByteRequest>, i: int, j: int)
    requires
        a.wf(),
        a.grants_all(reqs),
        0 <= i < j < reqs.len(),
    ensures
        a.addr_of(reqs, i) + reqs[i].size <= a.addr_of(reqs, j),
{
    lemma_grants_prefix(a, reqs, i);
    lemma_grants_prefix(a, reqs, i + 1);
    lemma_grants_prefix(a, reqs, j);
    lemma_grants_prefix(a, reqs, j + 1);
    lemma_alloc_all(a, reqs.take(i));
    lemma_alloc_all(a, reqs.take(j));
    assert(reqs.take(i + 1).drop_last() =~= reqs.take(i));
    assert(reqs.take(j + 1).drop_last() =~= reqs.take(j));
    lemma_alloc_bytes(a.alloc_all(reqs.take(i)), reqs[i].size, reqs[i].align);
    lemma_alloc_bytes(a.alloc_all(reqs.take(j)), reqs[j].size, reqs[j].align);
    lemma_cursor_rises(a, reqs, i + 1, j);
}

/// Returning fewer allocations than are outstanding only lowers the count.
pub proof fn lemma_dealloc_some(a: Arena, k: nat)
    requires
        a.wf(),
        k < a.live,
    ensures
        a.dealloc_n(k) == (Arena { live: a.live - k, ..a }),
    decreases k,
{
    if k > 0 {
        lemma_dealloc_some(a, (k - 1) as nat);
    }
}

/// Returning every outstanding allocation empties the byte arena.
pub proof fn lemma_dealloc_every(a: Arena)
    requires
        a.wf(),
    ensures
        a.dealloc_n(a.live as nat) == (Arena { byte_cursor: a.start, live: 0, ..a }),
{
    if a.live > 0 {
        lemma_dealloc_some(a, (a.live - 1) as nat);
    }
}

/// From an empty byte arena, as many returns as there were granted byte
/// requests bring the state back to where it was: no byte is in use, and as
/// many are available as before. One return fewer leaves bytes in use.
pub proof fn lemma_alloc_then_dealloc(a: Arena, reqs: Seq<ByteRequest>)
    requires
        a.wf(),
        a.live == 0,
        a.grants_all(reqs),
    ensures
        a.alloc_all(reqs).dealloc_n(reqs.len()) == a,
        a.alloc_all(reqs).dealloc_n(reqs.len()).used_bytes() == 0,
        a.alloc_all(reqs).dealloc_n(reqs.len()).available_bytes() == a.available_bytes(),
        reqs.len() > 0 ==> a.alloc_all(reqs).dealloc_n((reqs.len() - 1) as nat).used_bytes() > 0,
{
    lemma_alloc_all(a, reqs);
    lemma_dealloc_every(a.alloc_all(reqs));
    if reqs.len() > 0 {
        lemma_dealloc_some(a.alloc_all(reqs), (reqs.len() - 1) as nat);
    }
}

} // verus!
