//! The stack allocator: carves guarded, fixed-size virtual stack regions
//! from a dedicated, monotonically shrinking page range.
//!
//! Each allocation consumes `size_in_pages` contiguous pages plus one page
//! immediately below them that is deliberately left unmapped as a guard, so
//! a stack overflow faults instead of silently corrupting the neighbour.

use vstd::prelude::*;

use crate::addr::VirtualAddress;
use crate::frame::FrameAllocator;
use crate::memory::{Stack, PAGE_INDEX_LIMIT, PAGE_SIZE};
use crate::paging::{ActivePageTable, EntryFlags, Page, PageRange};

verus! {

/// The range still has room for a stack of `n` pages plus its guard page.
pub open spec fn stack_fits(range: PageRange, n: u64) -> bool {
    n >= 1 && range.start.0 + n <= range.end.0
}

/// Page `p` is one of the `n` mapped pages of the stack carved from the
/// front of `range` (the range's first page is the unmapped guard).
pub open spec fn stack_page(p: u64, range: PageRange, n: u64) -> bool {
    range.start.0 + 1 <= p <= range.start.0 + n
}

/// Lowest mapped byte of the stack carved from the front of `range`.
pub open spec fn alloc_bottom(range: PageRange) -> int {
    (range.start.0 + 1) * PAGE_SIZE
}

/// First byte past the highest mapped page of a stack of `n` pages carved
/// from the front of `range`.
pub open spec fn alloc_top(range: PageRange, n: u64) -> int {
    (range.start.0 + 1 + n) * PAGE_SIZE
}

/// What remains of `range` after carving a guard page and `n` stack pages.
pub open spec fn next_range(range: PageRange, n: u64) -> PageRange {
    PageRange { start: Page((range.start.0 + n + 1) as u64), end: range.end }
}

/// Allocator over a dedicated virtual page range reserved for task stacks.
pub struct StackAllocator {
    pub range: PageRange,
}

impl StackAllocator {
    /// The whole range, one page past its end included, lies below the
    /// page-index limit, so every stack-top address fits in 64 bits.
    pub open spec fn wf(self) -> bool {
        self.range.end.0 + 1 < PAGE_INDEX_LIMIT
    }

    pub fn new(range: PageRange) -> (r: StackAllocator)
        requires
            range.end.0 + 1 < PAGE_INDEX_LIMIT,
        ensures
            r.range == range,
            r.wf(),
    {
        StackAllocator { range }
    }

    /// Carve one stack of `size_in_pages` contiguous pages from the front
    /// of the remaining range, preceded by one deliberately unmapped guard
    /// page; map only the stack pages, present and writable.  Returns
    /// `None` — with the range unconsumed — when fewer than
    /// `size_in_pages + 1` pages remain (or when `size_in_pages` is zero),
    /// and on frame exhaustion; in the latter case the stack pages mapped
    /// before the frames ran out stay mapped, a downward-closed prefix of
    /// the candidate stack pages, each present and writable.  No
    /// deallocation path exists in this phase.
    #[verifier::loop_isolation(false)]
    pub fn alloc_stack<A: FrameAllocator>(
        &mut self,
        active_table: &mut ActivePageTable,
        frame_allocator: &mut A,
        size_in_pages: u64,
    ) -> (r: Option<Stack>)
        requires
            old(self).wf(),
            old(active_table).frames_fit(),
            forall|p: u64|
                old(self).range.start.0 <= p <= old(self).range.end.0 ==> !old(active_table)@.contains_key(p),
        ensures
            final(self).wf(),
            final(active_table).frames_fit(),
            final(self).range.end == old(self).range.end,
            !stack_fits(old(self).range, size_in_pages) ==> r is None && *final(self) == *old(self)
                && final(active_table)@ == old(active_table)@,
            forall|q: u64|
                !stack_page(q, old(self).range, size_in_pages) ==> (final(active_table)@.contains_key(q) <==> old(active_table)@.contains_key(q)) && (old(active_table)@.contains_key(q) ==> final(active_table)@[q] == old(active_table)@[q]),
            stack_fits(old(self).range, size_in_pages) ==> forall|p: u64|
                stack_page(p, old(self).range, size_in_pages) && final(active_table)@.contains_key(p) ==> final(active_table)@[p].flags == (EntryFlags {
                    present: true,
                    writable: true,
                    no_execute: false,
                }),
            stack_fits(old(self).range, size_in_pages) ==> forall|p: u64, q: u64|
                stack_page(p, old(self).range, size_in_pages) && stack_page(
                    q,
                    old(self).range,
                    size_in_pages,
                ) && p <= q && final(active_table)@.contains_key(q) ==> final(active_table)@.contains_key(p),
            match r {
                Some(st) => {
                    &&& stack_fits(old(self).range, size_in_pages)
                    &&& st.bottom.0 == alloc_bottom(old(self).range)
                    &&& st.top.0 == alloc_top(old(self).range, size_in_pages)
                    &&& final(self).range == next_range(old(self).range, size_in_pages)
                    &&& forall|p: u64|
                        stack_page(p, old(self).range, size_in_pages) ==> final(active_table)@.contains_key(p) && final(active_table)@[p].flags == (EntryFlags {
                            present: true,
                            writable: true,
                            no_execute: false,
                        })
                    &&& !final(active_table)@.contains_key(old(self).range.start.0)
                },
                None => *final(self) == *old(self),
            },
    {
        if size_in_pages == 0 {
            return None;
        }
        let s = self.range.start.0;
        let e = self.range.end.0;
        if s > e || size_in_pages > e - s {
            return None;
        }
        let stack_first = s + 1;
        let stack_last = s + size_in_pages;
        let flags = EntryFlags::read_write();
        let mut p: u64 = stack_first;
        while p <= stack_last
            invariant
                active_table.frames_fit(),
                stack_first <= p <= stack_last + 1,
                forall|q: u64|
                    stack_first <= q < p ==> active_table@.contains_key(q)
                        && active_table@[q].flags == flags.with_present(),
                forall|q: u64| p <= q <= stack_last ==> !active_table@.contains_key(q),
                forall|q: u64|
                    !(stack_first <= q <= stack_last) ==> (active_table@.contains_key(q) <==> old(active_table)@.contains_key(q)) && (old(active_table)@.contains_key(q)
                        ==> active_table@[q] == old(active_table)@[q]),
            decreases stack_last + 1 - p,
        {
            let ok = active_table.map(Page(p), flags, frame_allocator);
            if !ok {
                return None;
            }
            p += 1;
        }
        self.range.start = Page(stack_last + 1);
        let bottom = VirtualAddress(stack_first * PAGE_SIZE);
        let top = VirtualAddress((stack_last + 1) * PAGE_SIZE);
        Some(Stack { top, bottom })
    }
}

/// Law: stacks from two consecutive successful allocations are disjoint and
/// separated by exactly one page — the second stack's unmapped guard page,
/// whose byte range is precisely the gap between the first stack's top and
/// the second stack's bottom.
pub proof fn lemma_consecutive_stacks(range: PageRange, n1: u64, n2: u64)
    requires
        range.end.0 + 1 < PAGE_INDEX_LIMIT,
        stack_fits(range, n1),
        stack_fits(next_range(range, n1), n2),
    ensures
        alloc_top(range, n1) <= alloc_bottom(next_range(range, n1)),
        alloc_bottom(next_range(range, n1)) == alloc_top(range, n1) + PAGE_SIZE,
        next_range(range, n1).start.0 * PAGE_SIZE == alloc_top(range, n1),
{
}

} // verus!
