//! ABI constants of the memory subsystem, shared page arithmetic, and the
//! `Stack` value handed to the task subsystem.

use vstd::prelude::*;

use crate::addr::VirtualAddress;
use crate::frame::FrameAllocator;
use crate::paging::{ActivePageTable, EntryFlags, Page};

verus! {

/// Size of one page and of one frame, in bytes.
pub const PAGE_SIZE: u64 = 4096;

/// One past the largest page or frame index whose byte range fits in the
/// 64-bit address space.
pub const PAGE_INDEX_LIMIT: u64 = 0x10_0000_0000_0000;

/// Fixed virtual base address of the kernel heap, chosen far from the
/// kernel image and from identity-mapped regions.
pub const HEAP_START: u64 = 0x4444_4444_0000;

/// Size of the kernel heap in bytes.
pub const HEAP_SIZE: u64 = 1024 * 1024;

/// A page or frame index small enough that every byte of the page lies
/// below `2^64`.
pub open spec fn index_fits(i: u64) -> bool {
    i < PAGE_INDEX_LIMIT
}

/// Dividing any 64-bit address by the page size gives an index that fits.
pub proof fn lemma_addr_index_fits(x: u64)
    ensures
        index_fits(x / PAGE_SIZE),
{
    vstd::arithmetic::div_mod::lemma_div_is_ordered(x as int, u64::MAX as int, PAGE_SIZE as int);
}

/// `x / PAGE_SIZE <= k` exactly when `x` lies below the end of page `k`.
pub proof fn lemma_div_le_iff(x: u64, k: u64)
    ensures
        (x / PAGE_SIZE <= k) <==> (x < k * PAGE_SIZE + PAGE_SIZE),
{
    vstd::arithmetic::div_mod::lemma_fundamental_div_mod(x as int, PAGE_SIZE as int);
    vstd::arithmetic::div_mod::lemma_mod_bound(x as int, PAGE_SIZE as int);
}

/// `k * PAGE_SIZE <= x` exactly when page `k`'s first byte is at or below `x`,
/// stated through division: `k <= x / PAGE_SIZE`.
pub proof fn lemma_mul_le_div(x: u64, k: u64)
    ensures
        (k * PAGE_SIZE <= x) <==> (k <= x / PAGE_SIZE),
{
    vstd::arithmetic::div_mod::lemma_fundamental_div_mod(x as int, PAGE_SIZE as int);
    vstd::arithmetic::div_mod::lemma_mod_bound(x as int, PAGE_SIZE as int);
}

/// A virtual memory range handed to a task as its execution stack.
/// The stack grows downward from `top` (exclusive) to `bottom` (inclusive).
pub struct Stack {
    pub top: VirtualAddress,
    pub bottom: VirtualAddress,
}

impl Stack {
    /// First byte past the highest mapped stack page; the initial
    /// stack-pointer value for a new execution context.
    pub fn top(&self) -> (r: VirtualAddress)
        ensures
            r == self.top,
    {
        self.top
    }

    /// Lowest mapped byte of the stack.
    pub fn bottom(&self) -> (r: VirtualAddress)
        ensures
            r == self.bottom,
    {
        self.bottom
    }
}

/// Page `p` lies in the fixed heap range `[HEAP_START, HEAP_START + HEAP_SIZE)`.
pub open spec fn page_in_heap(p: u64) -> bool {
    HEAP_START / PAGE_SIZE <= p < (HEAP_START + HEAP_SIZE) / (PAGE_SIZE as int)
}

/// Map every page of the fixed heap range present and writable, and return
/// the byte range `(HEAP_START, HEAP_SIZE)` for the embedding to hand to the
/// process-wide allocator — exactly once, and never again.  No page outside
/// the heap range is touched.  Returns `None` on frame exhaustion; the heap
/// pages mapped up to that point stay mapped, so what remains is a
/// downward-closed prefix of the heap range, every page of it present and
/// writable.
#[verifier::loop_isolation(false)]
pub fn init_heap<A: FrameAllocator>(active_table: &mut ActivePageTable, allocator: &mut A) -> (r:
    Option<(VirtualAddress, u64)>)
    requires
        old(active_table).frames_fit(),
        forall|p: u64| page_in_heap(p) ==> !old(active_table)@.contains_key(p),
    ensures
        final(active_table).frames_fit(),
        forall|q: u64|
            !page_in_heap(q) ==> (final(active_table)@.contains_key(q) <==> old(active_table)@.contains_key(q)) && (old(active_table)@.contains_key(q) ==> final(active_table)@[q] == old(active_table)@[q]),
        forall|p: u64|
            page_in_heap(p) && final(active_table)@.contains_key(p)
                ==> final(active_table)@[p].flags == (EntryFlags {
                present: true,
                writable: true,
                no_execute: false,
            }),
        forall|p: u64, q: u64|
            page_in_heap(p) && page_in_heap(q) && p <= q && final(active_table)@.contains_key(q)
                ==> final(active_table)@.contains_key(p),
        match r {
            Some(range) => {
                &&& range.0.0 == HEAP_START
                &&& range.1 == HEAP_SIZE
                &&& forall|p: u64|
                    page_in_heap(p) ==> final(active_table)@.contains_key(p) && final(active_table)@[p].flags == (EntryFlags { present: true, writable: true, no_execute: false })
            },
            None => true,
        },
{
    let heap_start_page: u64 = HEAP_START / PAGE_SIZE;
    let heap_end_page: u64 = (HEAP_START + HEAP_SIZE) / PAGE_SIZE;
    let flags = EntryFlags::read_write();
    let mut p: u64 = heap_start_page;
    while p < heap_end_page
        invariant
            active_table.frames_fit(),
            heap_start_page <= p <= heap_end_page,
            forall|q: u64|
                page_in_heap(q) && q < p ==> active_table@.contains_key(q)
                    && active_table@[q].flags == flags.with_present(),
            forall|q: u64| page_in_heap(q) && p <= q ==> !active_table@.contains_key(q),
            forall|q: u64|
                !page_in_heap(q) ==> (active_table@.contains_key(q) <==> old(active_table)@.contains_key(q)) && (old(active_table)@.contains_key(q) ==> active_table@[q]
                    == old(active_table)@[q]),
        decreases heap_end_page - p,
    {
        proof {
            assert(page_in_heap(p));
        }
        let ok = active_table.map(Page(p), flags, allocator);
        if !ok {
            return None;
        }
        p += 1;
    }
    Some((VirtualAddress(HEAP_START), HEAP_SIZE))
}

} // verus!
