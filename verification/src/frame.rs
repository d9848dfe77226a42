//! Physical frames and the area-scanning bump allocator.
//!
//! The allocator walks the bootloader memory map with a monotonically
//! advancing cursor, hands out the least fully-usable frame at or above the
//! cursor, and never yields a frame overlapping the kernel image range or
//! the boot-information structure range.

use vstd::prelude::*;

use crate::addr::PhysicalAddress;
use crate::memory::{index_fits, lemma_div_le_iff, lemma_mul_le_div, PAGE_SIZE};

verus! {

/// A physical-memory unit of `PAGE_SIZE` bytes, identified by index
/// (physical address divided by the page size).
#[derive(Clone, Copy, Debug, PartialEq, Eq, Structural)]
pub struct Frame(pub u64);

impl Frame {
    /// Floor-divide the physical address by the frame size.
    pub fn containing_address(address: PhysicalAddress) -> (r: Frame)
        ensures
            r.0 == address.0 / PAGE_SIZE,
    {
        Frame(address.0 / PAGE_SIZE)
    }
}

/// One record of the boot memory map: the physical byte range
/// `[base, base + length)` and whether it is usable RAM.
#[derive(Clone, Copy, Debug, PartialEq, Eq, Structural)]
pub struct MemoryArea {
    pub base: u64,
    pub length: u64,
    pub usable: bool,
}

/// First frame index lying fully inside the area's byte range.
pub open spec fn area_first_frame(a: MemoryArea) -> int {
    if a.base % PAGE_SIZE == 0 {
        a.base as int / PAGE_SIZE as int
    } else {
        a.base as int / PAGE_SIZE as int + 1
    }
}

/// One past the last frame index lying fully inside the area's byte range.
pub open spec fn area_end_frame(a: MemoryArea) -> int {
    (a.base + a.length) / PAGE_SIZE as int
}

/// Every byte of frame `f` lies inside the usable area `a`, and the area's
/// byte range itself fits the 64-bit physical address space.
pub open spec fn frame_within_area(f: u64, a: MemoryArea) -> bool {
    &&& a.usable
    &&& a.base + a.length <= u64::MAX
    &&& area_first_frame(a) <= f < area_end_frame(a)
}

/// Frame `f` lies fully inside some usable area of the map.
pub open spec fn frame_in_usable_area(f: u64, areas: Seq<MemoryArea>) -> bool {
    exists|i: int| 0 <= i < areas.len() && frame_within_area(f, #[trigger] areas[i])
}

/// The byte range of frame `f` intersects the half-open byte range
/// `[start, end)`.
pub open spec fn frame_overlaps_range(f: u64, start: u64, end: u64) -> bool {
    &&& start < end
    &&& f * PAGE_SIZE < end
    &&& start < f * PAGE_SIZE + PAGE_SIZE
}

/// A frame fully inside an area fits the address space.
pub proof fn lemma_frame_within_area_fits(f: u64, a: MemoryArea)
    requires
        frame_within_area(f, a),
    ensures
        index_fits(f),
{
    assert(f * PAGE_SIZE + PAGE_SIZE <= a.base + a.length);
}

/// `frame_within_area` restated at byte granularity: the frame's bytes are
/// exactly those of `[f * PAGE_SIZE, f * PAGE_SIZE + PAGE_SIZE)`, and they
/// all lie in the area.
pub proof fn lemma_frame_within_area_bytes(f: u64, a: MemoryArea)
    requires
        a.base + a.length <= u64::MAX,
    ensures
        frame_within_area(f, a) <==> (a.usable && a.base <= f * PAGE_SIZE && f * PAGE_SIZE
            + PAGE_SIZE <= a.base + a.length),
{
    vstd::arithmetic::div_mod::lemma_fundamental_div_mod(a.base as int, PAGE_SIZE as int);
    vstd::arithmetic::div_mod::lemma_mod_bound(a.base as int, PAGE_SIZE as int);
    vstd::arithmetic::div_mod::lemma_fundamental_div_mod(
        (a.base + a.length) as int,
        PAGE_SIZE as int,
    );
    vstd::arithmetic::div_mod::lemma_mod_bound((a.base + a.length) as int, PAGE_SIZE as int);
}

/// The capability to hand out physical frames, one at a time.
/// `deallocate_frame` is declared so that a reclaiming allocator can later
/// substitute for the bootstrap one behind the same interface.
pub trait FrameAllocator {
    /// Hand out one frame, or `None` when physical memory is exhausted.
    fn allocate_frame(&mut self) -> (r: Option<Frame>)
        ensures
            r matches Some(f) ==> index_fits(f.0),
    ;

    /// Release a frame back to the allocator.
    fn deallocate_frame(&mut self, frame: Frame);
}

/// The concrete bump allocator over the boot memory map.
///
/// `cursor` is the next candidate frame index; it only ever advances.
pub struct AreaFrameAllocator {
    pub cursor: u64,
    pub areas: Vec<MemoryArea>,
    pub kernel_start: u64,
    pub kernel_end: u64,
    pub multiboot_start: u64,
    pub multiboot_end: u64,
}

impl AreaFrameAllocator {
    /// Frame `f` may be handed out: it lies fully inside a usable area and
    /// overlaps neither the kernel image range nor the boot-information
    /// structure range.
    pub open spec fn eligible(self, f: u64) -> bool {
        &&& frame_in_usable_area(f, self.areas@)
        &&& !frame_overlaps_range(f, self.kernel_start, self.kernel_end)
        &&& !frame_overlaps_range(f, self.multiboot_start, self.multiboot_end)
    }

    /// The memory map and the exclusion ranges of `self` and `other` agree;
    /// only the cursor may differ.
    pub open spec fn same_layout(self, other: Self) -> bool {
        &&& self.areas == other.areas
        &&& self.kernel_start == other.kernel_start
        &&& self.kernel_end == other.kernel_end
        &&& self.multiboot_start == other.multiboot_start
        &&& self.multiboot_end == other.multiboot_end
    }

    /// `f` is exactly the frame a successful allocation returns when the
    /// cursor stands at `from`: the least eligible frame at or above `from`.
    pub open spec fn is_allocation_result(self, from: u64, f: u64) -> bool {
        &&& from <= f
        &&& self.eligible(f)
        &&& forall|g: u64| from <= g < f ==> !self.eligible(g)
    }

    /// Capture the boot memory map and the two physical exclusion ranges
    /// (each half-open: `[start, end)`); the cursor starts at frame zero.
    pub fn new(
        kernel_start: PhysicalAddress,
        kernel_end: PhysicalAddress,
        multiboot_start: PhysicalAddress,
        multiboot_end: PhysicalAddress,
        areas: Vec<MemoryArea>,
    ) -> (r: AreaFrameAllocator)
        ensures
            r.cursor == 0,
            r.areas == areas,
            r.kernel_start == kernel_start.0,
            r.kernel_end == kernel_end.0,
            r.multiboot_start == multiboot_start.0,
            r.multiboot_end == multiboot_end.0,
    {
        AreaFrameAllocator {
            cursor: 0,
            areas,
            kernel_start: kernel_start.0,
            kernel_end: kernel_end.0,
            multiboot_start: multiboot_start.0,
            multiboot_end: multiboot_end.0,
        }
    }

    /// Least frame at or above `from` that lies fully inside a usable area,
    /// ignoring the exclusion ranges.
    fn first_usable_from(&self, from: u64) -> (r: Option<u64>)
        ensures
            match r {
                Some(f) => {
                    &&& from <= f
                    &&& index_fits(f)
                    &&& frame_in_usable_area(f, self.areas@)
                    &&& forall|g: u64|
                        from <= g < f ==> !frame_in_usable_area(g, self.areas@)
                },
                None => forall|g: u64| from <= g ==> !frame_in_usable_area(g, self.areas@),
            },
    {
        let mut best: u64 = u64::MAX;
        let mut found: bool = false;
        let mut i: usize = 0;
        while i < self.areas.len()
            invariant
                i <= self.areas.len(),
                found ==> from <= best && index_fits(best) && frame_in_usable_area(
                    best,
                    self.areas@,
                ),
                forall|g: u64, j: int|
                    0 <= j < i && from <= g && #[trigger] frame_within_area(g, self.areas@[j])
                        ==> found && best <= g,
            decreases self.areas.len() - i,
        {
            let a = self.areas[i];
            if a.usable {
                match a.base.checked_add(a.length) {
                    None => {
                        // the area's byte range does not fit the address
                        // space, so no frame lies fully within it
                        assert(forall|g: u64| !frame_within_area(g, a));
                    },
                    Some(end) => {
                        let end_frame = end / PAGE_SIZE;
                        let first = if a.base % PAGE_SIZE == 0 {
                            a.base / PAGE_SIZE
                        } else {
                            a.base / PAGE_SIZE + 1
                        };
                        let cand = if first > from {
                            first
                        } else {
                            from
                        };
                        if cand < end_frame {
                            proof {
                                assert(frame_within_area(cand, a));
                                lemma_frame_within_area_fits(cand, a);
                            }
                            if !found || cand < best {
                                best = cand;
                                found = true;
                            }
                        }
                    },
                }
            }
            i += 1;
        }
        if found {
            Some(best)
        } else {
            None
        }
    }

    /// Whether frame `f`'s byte range intersects `[start, end)`.
    fn frame_overlaps(&self, f: u64, start: u64, end: u64) -> (r: bool)
        requires
            index_fits(f),
        ensures
            r == frame_overlaps_range(f, start, end),
    {
        proof {
            lemma_div_le_iff(start, f);
        }
        start < end && f * PAGE_SIZE < end && start / PAGE_SIZE <= f
    }
}

impl FrameAllocator for AreaFrameAllocator {
    /// Advance the cursor to the least eligible frame and hand it out;
    /// return `None`, leaving the layout unchanged, when no eligible frame
    /// remains at or above the cursor.
    fn allocate_frame(&mut self) -> (r: Option<Frame>)
        ensures
            final(self).same_layout(*old(self)),
            old(self).cursor <= final(self).cursor,
            match r {
                Some(f) => {
                    &&& index_fits(f.0)
                    &&& old(self).is_allocation_result(old(self).cursor, f.0)
                    &&& final(self).cursor == f.0 + 1
                },
                None => forall|g: u64| old(self).cursor <= g ==> !old(self).eligible(g),
            },
    {
        let ghost start_cursor: u64 = self.cursor;
        let mut cur: u64 = self.cursor;
        let mut kernel_passed: bool = false;
        let mut multiboot_passed: bool = false;
        loop
            invariant
                *self == *old(self),
                start_cursor == old(self).cursor,
                start_cursor <= cur,
                forall|g: u64| start_cursor <= g < cur ==> !old(self).eligible(g),
                kernel_passed ==> forall|g: u64|
                    cur <= g ==> !frame_overlaps_range(g, self.kernel_start, self.kernel_end),
                multiboot_passed ==> forall|g: u64|
                    cur <= g ==> !frame_overlaps_range(
                        g,
                        self.multiboot_start,
                        self.multiboot_end,
                    ),
            decreases (if kernel_passed { 0int } else { 1int }) + (if multiboot_passed {
                0int
            } else {
                1int
            }),
        {
            match self.first_usable_from(cur) {
                None => {
                    // no usable frame remains, so no eligible one does
                    return None;
                },
                Some(c) => {
                    if self.frame_overlaps(c, self.kernel_start, self.kernel_end) {
                        // every frame from `cur` up through the kernel
                        // image is either unusable or overlaps the image
                        let next = (self.kernel_end - 1) / PAGE_SIZE + 1;
                        proof {
                            assert(!kernel_passed);
                            assert forall|g: u64| cur <= g < next implies !old(self).eligible(
                                g,
                            ) by {
                                lemma_mul_le_div((self.kernel_end - 1) as u64, g);
                                lemma_div_le_iff(self.kernel_start, g);
                                if g < c {
                                } else {
                                    assert(frame_overlaps_range(
                                        g,
                                        self.kernel_start,
                                        self.kernel_end,
                                    ));
                                }
                            }
                            assert forall|g: u64| next <= g implies !frame_overlaps_range(
                                g,
                                self.kernel_start,
                                self.kernel_end,
                            ) by {
                                lemma_mul_le_div((self.kernel_end - 1) as u64, g);
                            }
                        }
                        cur = next;
                        kernel_passed = true;
                    } else if self.frame_overlaps(c, self.multiboot_start, self.multiboot_end) {
                        let next = (self.multiboot_end - 1) / PAGE_SIZE + 1;
                        proof {
                            assert(!multiboot_passed);
                            assert forall|g: u64| cur <= g < next implies !old(self).eligible(
                                g,
                            ) by {
                                lemma_mul_le_div((self.multiboot_end - 1) as u64, g);
                                lemma_div_le_iff(self.multiboot_start, g);
                                if g < c {
                                } else {
                                    assert(frame_overlaps_range(
                                        g,
                                        self.multiboot_start,
                                        self.multiboot_end,
                                    ));
                                }
                            }
                            assert forall|g: u64| next <= g implies !frame_overlaps_range(
                                g,
                                self.multiboot_start,
                                self.multiboot_end,
                            ) by {
                                lemma_mul_le_div((self.multiboot_end - 1) as u64, g);
                            }
                        }
                        cur = next;
                        multiboot_passed = true;
                    } else {
                        self.cursor = c + 1;
                        return Some(Frame(c));
                    }
                },
            }
        }
    }

    /// Declared no-op: the bootstrap allocator only ever advances.
    fn deallocate_frame(&mut self, frame: Frame)
        ensures
            *final(self) == *old(self),
    {
    }
}

/// Law: for a fixed memory map and fixed exclusion ranges, the frames of
/// successive successful allocations strictly increase (and are therefore
/// pairwise distinct): the second allocation starts at the cursor the first
/// one left behind.
pub proof fn lemma_allocations_strictly_increase(
    a: AreaFrameAllocator,
    c0: u64,
    f0: u64,
    f1: u64,
)
    requires
        a.is_allocation_result(c0, f0),
        f0 < u64::MAX,
        a.is_allocation_result((f0 + 1) as u64, f1),
    ensures
        f1 > f0,
{
}

/// Law: the allocation sequence is fully reproducible — from one cursor
/// position on one layout, only one frame can be the allocation result.
pub proof fn lemma_allocation_deterministic(a: AreaFrameAllocator, from: u64, f0: u64, f1: u64)
    requires
        a.is_allocation_result(from, f0),
        a.is_allocation_result(from, f1),
    ensures
        f0 == f1,
{
}

/// Law: an allocated frame's byte range is disjoint from the kernel image
/// range and from the boot-information range.
pub proof fn lemma_allocated_frame_avoids_exclusions(a: AreaFrameAllocator, from: u64, f: u64)
    requires
        a.is_allocation_result(from, f),
    ensures
        f * PAGE_SIZE + PAGE_SIZE <= a.kernel_start || a.kernel_end <= f * PAGE_SIZE
            || a.kernel_start >= a.kernel_end,
        f * PAGE_SIZE + PAGE_SIZE <= a.multiboot_start || a.multiboot_end <= f * PAGE_SIZE
            || a.multiboot_start >= a.multiboot_end,
{
}

} // verus!
