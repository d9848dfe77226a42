//! Virtual pages, page-entry flags, the active page-table model, and the
//! kernel remap.
//!
//! The page table is modelled as the translation it denotes: a finite map
//! from virtual-page index to `(frame, flags)` leaf entries, together with
//! the set of intermediate table levels allocated so far.  The hardware
//! walk, the volatile entry writes and the privileged switch of the
//! translation root are the embedding's concern; every decision about what
//! the table contains is made — and proved — here.

use std::collections::HashMap;

use vstd::prelude::*;

use crate::addr::{PhysicalAddress, VirtualAddress};
use crate::frame::{Frame, FrameAllocator};
use crate::memory::{index_fits, lemma_addr_index_fits, PAGE_SIZE};

verus! {

broadcast use vstd::std_specs::hash::group_hash_axioms;

/// A virtual-memory unit of `PAGE_SIZE` bytes, identified by index
/// (virtual address divided by the page size).
#[derive(Clone, Copy, Debug, PartialEq, Eq, Structural)]
pub struct Page(pub u64);

impl Page {
    /// Floor-divide the virtual address by the page size.
    pub fn containing_address(address: VirtualAddress) -> (r: Page)
        ensures
            r.0 == address.0 / PAGE_SIZE,
    {
        Page(address.0 / PAGE_SIZE)
    }

    /// First byte of the page.
    pub fn start_address(self) -> (r: VirtualAddress)
        requires
            index_fits(self.0),
        ensures
            r.0 == self.0 * PAGE_SIZE,
    {
        VirtualAddress(self.0 * PAGE_SIZE)
    }

    /// The ascending sequence of pages from `start` through `end` inclusive.
    pub fn range_inclusive(start: Page, end: Page) -> (r: PageRange)
        ensures
            r.start == start,
            r.end == end,
            r@.len() == if start.0 <= end.0 { end.0 - start.0 + 1 } else { 0int },
            forall|k: int| 0 <= k < r@.len() ==> r@[k] == start.0 + k,
    {
        PageRange { start, end }
    }
}

/// A finite, restartable, ascending run of pages, from `start` through
/// `end` inclusive; empty when `start` exceeds `end`.  Its view is the
/// sequence of page indices it still yields.
pub struct PageRange {
    pub start: Page,
    pub end: Page,
}

impl View for PageRange {
    type V = Seq<u64>;

    open spec fn view(&self) -> Seq<u64> {
        Seq::new(
            if self.start.0 <= self.end.0 {
                (self.end.0 - self.start.0 + 1) as nat
            } else {
                0
            },
            |k: int| (self.start.0 + k) as u64,
        )
    }
}

impl PageRange {
    /// Yield the lowest remaining page and advance past it.
    pub fn next(&mut self) -> (r: Option<Page>)
        ensures
            old(self)@.len() == 0 ==> r is None && final(self)@ == old(self)@,
            old(self)@.len() > 0 ==> r == Some(Page(old(self)@[0])) && final(self)@ == old(self)@.skip(1),
    {
        if self.start.0 > self.end.0 {
            None
        } else {
            let p = self.start.0;
            if self.start.0 < self.end.0 {
                self.start = Page(p + 1);
            } else {
                // the run is exhausted; leave a canonical empty range
                self.start = Page(1);
                self.end = Page(0);
            }
            proof {
                assert(self@ =~= old(self)@.skip(1));
            }
            Some(Page(p))
        }
    }

    pub fn is_empty(&self) -> (r: bool)
        ensures
            r == (self@.len() == 0),
    {
        self.start.0 > self.end.0
    }
}

/// Law: the inclusive range from a page to itself yields exactly that page.
pub proof fn lemma_range_inclusive_singleton(p: Page)
    ensures
        (PageRange { start: p, end: p })@ == seq![p.0],
{
    assert((PageRange { start: p, end: p })@ =~= seq![p.0]);
}

/// Composable page-entry flags.
#[derive(Clone, Copy, Debug, PartialEq, Eq, Structural)]
pub struct EntryFlags {
    pub present: bool,
    pub writable: bool,
    pub no_execute: bool,
}

impl EntryFlags {
    /// The flags with `present` set, as every installed leaf entry has it.
    pub open spec fn with_present(self) -> EntryFlags {
        EntryFlags { present: true, ..self }
    }

    /// Flags for a loadable ELF section, derived from the section's own
    /// attributes: writable data stays writable, anything not executable is
    /// marked no-execute.
    pub fn from_elf_section(writable: bool, executable: bool) -> (r: EntryFlags)
        ensures
            r == section_flags(writable, executable),
    {
        EntryFlags { present: true, writable, no_execute: !executable }
    }

    /// Present and writable: the flags of heap and stack pages.
    pub fn read_write() -> (r: EntryFlags)
        ensures
            r == (EntryFlags { present: true, writable: true, no_execute: false }),
    {
        EntryFlags { present: true, writable: true, no_execute: false }
    }
}

/// The leaf-entry flags a loadable section's pages are mapped with.
pub open spec fn section_flags(writable: bool, executable: bool) -> EntryFlags {
    EntryFlags { present: true, writable, no_execute: !executable }
}

/// The flags the identity-mapped boot-information pages are mapped with.
pub open spec fn boot_info_flags() -> EntryFlags {
    EntryFlags { present: true, writable: false, no_execute: false }
}

/// One installed leaf entry: the frame a page translates to, and its flags.
#[derive(Clone, Copy, Debug, PartialEq, Eq, Structural)]
pub struct PageEntry {
    pub frame: Frame,
    pub flags: EntryFlags,
}

/// The exclusive handle to the installed translation structure.
///
/// Its view is the map from virtual-page index to leaf entry.  The three
/// private maps record which intermediate table levels have been allocated,
/// keyed by the page-index prefix each level covers, each backed by a frame
/// obtained from the frame allocator.
pub struct ActivePageTable {
    entries: HashMap<u64, PageEntry>,
    p3_tables: HashMap<u64, Frame>,
    p2_tables: HashMap<u64, Frame>,
    p1_tables: HashMap<u64, Frame>,
}

impl View for ActivePageTable {
    type V = Map<u64, PageEntry>;

    closed spec fn view(&self) -> Map<u64, PageEntry> {
        self.entries@
    }
}

impl ActivePageTable {
    /// Prefixes (page index shifted by 27) of the third-level tables
    /// allocated so far.
    pub closed spec fn p3s(self) -> Set<u64> {
        self.p3_tables@.dom()
    }

    /// Prefixes (page index shifted by 18) of the second-level tables.
    pub closed spec fn p2s(self) -> Set<u64> {
        self.p2_tables@.dom()
    }

    /// Prefixes (page index shifted by 9) of the first-level tables.
    pub closed spec fn p1s(self) -> Set<u64> {
        self.p1_tables@.dom()
    }

    /// Every installed frame index fits the physical address space.
    pub open spec fn frames_fit(self) -> bool {
        forall|p: u64| #[trigger] self@.contains_key(p) ==> index_fits(self@[p].frame.0)
    }

    /// An empty table: no leaf entries, no intermediate levels.
    fn new_empty() -> (r: ActivePageTable)
        ensures
            r@ == Map::<u64, PageEntry>::empty(),
            r.frames_fit(),
    {
        ActivePageTable {
            entries: HashMap::new(),
            p3_tables: HashMap::new(),
            p2_tables: HashMap::new(),
            p1_tables: HashMap::new(),
        }
    }

    /// Install a leaf entry mapping `page` to `frame` with
    /// `flags | present`, allocating each missing intermediate table level
    /// from the frame allocator on the way down.  Returns `false`, leaving
    /// the leaf map unchanged, only when the allocator runs out while a
    /// level is still missing; when every level on the page's path already
    /// exists, no frame is needed and the call succeeds.
    pub fn map_to<A: FrameAllocator>(
        &mut self,
        page: Page,
        frame: Frame,
        flags: EntryFlags,
        allocator: &mut A,
    ) -> (r: bool)
        requires
            !old(self)@.contains_key(page.0),
            index_fits(frame.0),
            old(self).frames_fit(),
        ensures
            old(self).p3s().contains(page.0 >> 27) && old(self).p2s().contains(page.0 >> 18)
                && old(self).p1s().contains(page.0 >> 9) ==> r,
            final(self).frames_fit(),
            r ==> final(self)@ == old(self)@.insert(
                page.0,
                (PageEntry { frame, flags: flags.with_present() }),
            ),
            !r ==> final(self)@ == old(self)@,
            old(self).p3s().subset_of(final(self).p3s()),
            final(self).p3s().subset_of(old(self).p3s().insert(page.0 >> 27)),
            old(self).p2s().subset_of(final(self).p2s()),
            final(self).p2s().subset_of(old(self).p2s().insert(page.0 >> 18)),
            old(self).p1s().subset_of(final(self).p1s()),
            final(self).p1s().subset_of(old(self).p1s().insert(page.0 >> 9)),
    {
        let p3_key = page.0 >> 27;
        if !self.p3_tables.contains_key(&p3_key) {
            match allocator.allocate_frame() {
                None => {
                    return false;
                },
                Some(f) => {
                    self.p3_tables.insert(p3_key, f);
                },
            }
        }
        let p2_key = page.0 >> 18;
        if !self.p2_tables.contains_key(&p2_key) {
            match allocator.allocate_frame() {
                None => {
                    return false;
                },
                Some(f) => {
                    self.p2_tables.insert(p2_key, f);
                },
            }
        }
        let p1_key = page.0 >> 9;
        if !self.p1_tables.contains_key(&p1_key) {
            match allocator.allocate_frame() {
                None => {
                    return false;
                },
                Some(f) => {
                    self.p1_tables.insert(p1_key, f);
                },
            }
        }
        let entry = PageEntry {
            frame,
            flags: EntryFlags {
                present: true,
                writable: flags.writable,
                no_execute: flags.no_execute,
            },
        };
        self.entries.insert(page.0, entry);
        proof {
            assert forall|p: u64| #[trigger] self@.contains_key(p) implies index_fits(
                self@[p].frame.0,
            ) by {
                if p != page.0 {
                    assert(old(self)@.contains_key(p));
                }
            }
        }
        true
    }

    /// Map `page` to a fresh frame from the allocator with
    /// `flags | present`.  Returns `false`, leaving the leaf map unchanged,
    /// on frame exhaustion.
    pub fn map<A: FrameAllocator>(
        &mut self,
        page: Page,
        flags: EntryFlags,
        allocator: &mut A,
    ) -> (r: bool)
        requires
            !old(self)@.contains_key(page.0),
            old(self).frames_fit(),
        ensures
            final(self).frames_fit(),
            r ==> final(self)@.dom() == old(self)@.dom().insert(page.0) && final(self)@[page.0].flags == flags.with_present(),
            !r ==> final(self)@ == old(self)@,
            forall|q: u64|
                q != page.0 && old(self)@.contains_key(q) ==> final(self)@.contains_key(q)
                    && final(self)@[q] == old(self)@[q],
            forall|q: u64| q != page.0 && !old(self)@.contains_key(q) ==> !final(self)@.contains_key(q),
    {
        match allocator.allocate_frame() {
            None => false,
            Some(f) => {
                let r = self.map_to(page, f, flags, allocator);
                proof {
                    if r {
                        assert(self@.dom() =~= old(self)@.dom().insert(page.0));
                    }
                }
                r
            },
        }
    }

    /// Identity-map `frame`: the page with the same index translates to it.
    /// As with `map_to`, the call succeeds whenever every intermediate
    /// level on that page's path already exists.
    pub fn identity_map<A: FrameAllocator>(
        &mut self,
        frame: Frame,
        flags: EntryFlags,
        allocator: &mut A,
    ) -> (r: bool)
        requires
            !old(self)@.contains_key(frame.0),
            index_fits(frame.0),
            old(self).frames_fit(),
        ensures
            old(self).p3s().contains(frame.0 >> 27) && old(self).p2s().contains(frame.0 >> 18)
                && old(self).p1s().contains(frame.0 >> 9) ==> r,
            final(self).frames_fit(),
            r ==> final(self)@ == old(self)@.insert(
                frame.0,
                (PageEntry { frame, flags: flags.with_present() }),
            ),
            !r ==> final(self)@ == old(self)@,
    {
        self.map_to(Page(frame.0), frame, flags, allocator)
    }

    /// The one legal bridge between the address spaces: translate a virtual
    /// address through the table; unmapped addresses produce no result.
    pub fn translate(&self, address: VirtualAddress) -> (r: Option<PhysicalAddress>)
        requires
            self.frames_fit(),
        ensures
            match r {
                Some(pa) => self@.contains_key(address.0 / PAGE_SIZE) && pa.0 == self@[address.0
                    / PAGE_SIZE].frame.0 * PAGE_SIZE + address.0 % PAGE_SIZE,
                None => !self@.contains_key(address.0 / PAGE_SIZE),
            },
    {
        let page: u64 = address.0 / PAGE_SIZE;
        match self.entries.get(&page) {
            None => None,
            Some(e) => {
                proof {
                    assert(self@.contains_key(page));
                    assert(index_fits(e.frame.0));
                }
                let offset: u64 = address.0 % PAGE_SIZE;
                Some(PhysicalAddress(e.frame.0 * PAGE_SIZE + offset))
            },
        }
    }

    /// The installed leaf entry for `page`, if any.
    pub fn entry(&self, page: Page) -> (r: Option<PageEntry>)
        ensures
            match r {
                Some(e) => self@.contains_key(page.0) && e == self@[page.0],
                None => !self@.contains_key(page.0),
            },
    {
        match self.entries.get(&page.0) {
            None => None,
            Some(e) => Some(*e),
        }
    }

    /// Whether `page` has an installed leaf entry.
    pub fn is_mapped(&self, page: Page) -> (r: bool)
        ensures
            r == self@.contains_key(page.0),
    {
        self.entries.contains_key(&page.0)
    }

    /// How many pages have installed leaf entries.
    pub fn mapped_count(&self) -> (r: usize)
        ensures
            r == self@.dom().len(),
    {
        self.entries.len()
    }
}

/// A record of the kernel's ELF section table: the byte range
/// `[start, end)` (virtual equals physical for the loaded kernel image) and
/// the section's own attribute flags.
#[derive(Clone, Copy, Debug, PartialEq, Eq, Structural)]
pub struct ElfSection {
    pub start: u64,
    pub end: u64,
    pub writable: bool,
    pub executable: bool,
    pub allocated: bool,
}

/// The section occupies memory when loaded: allocated and of nonzero size.
/// (Zero-size and non-allocated sections are skipped by the remap.)
pub open spec fn section_is_loadable(s: ElfSection) -> bool {
    s.allocated && s.start < s.end
}

/// Page `p` holds bytes of the loadable section `s`.
pub open spec fn page_in_section(p: u64, s: ElfSection) -> bool {
    &&& section_is_loadable(s)
    &&& s.start / PAGE_SIZE <= p
    &&& p <= (s.end - 1) / (PAGE_SIZE as int)
}

/// Page `p` holds bytes of the boot-information range `[start, end)`.
pub open spec fn page_in_boot_info(p: u64, start: u64, end: u64) -> bool {
    &&& start < end
    &&& start / PAGE_SIZE <= p
    &&& p <= (end - 1) / (PAGE_SIZE as int)
}

/// The byte bounds of the loaded kernel image: the least `start` and the
/// greatest `end` over the allocated sections of the ELF section table.
/// `None` when no section is allocated.
#[verifier::loop_isolation(false)]
pub fn kernel_bounds(sections: &Vec<ElfSection>) -> (r: Option<(u64, u64)>)
    ensures
        match r {
            Some(b) => {
                &&& forall|i: int|
                    0 <= i < sections@.len() && (#[trigger] sections@[i]).allocated ==> b.0
                        <= sections@[i].start && sections@[i].end <= b.1
                &&& exists|i: int|
                    0 <= i < sections@.len() && (#[trigger] sections@[i]).allocated
                        && sections@[i].start == b.0
                &&& exists|i: int|
                    0 <= i < sections@.len() && (#[trigger] sections@[i]).allocated
                        && sections@[i].end == b.1
            },
            None => forall|i: int| 0 <= i < sections@.len() ==> !(#[trigger] sections@[i]).allocated,
        },
{
    let mut lo: u64 = 0;
    let mut hi: u64 = 0;
    let mut found: bool = false;
    let mut i: usize = 0;
    while i < sections.len()
        invariant
            i <= sections.len(),
            !found ==> forall|j: int| 0 <= j < i ==> !(#[trigger] sections@[j]).allocated,
            found ==> forall|j: int|
                0 <= j < i && (#[trigger] sections@[j]).allocated ==> lo <= sections@[j].start
                    && sections@[j].end <= hi,
            found ==> exists|j: int|
                0 <= j < i && (#[trigger] sections@[j]).allocated && sections@[j].start == lo,
            found ==> exists|j: int|
                0 <= j < i && (#[trigger] sections@[j]).allocated && sections@[j].end == hi,
        decreases sections.len() - i,
    {
        let s = sections[i];
        if s.allocated {
            if !found {
                lo = s.start;
                hi = s.end;
                found = true;
            } else {
                if s.start < lo {
                    lo = s.start;
                }
                if s.end > hi {
                    hi = s.end;
                }
            }
        }
        i += 1;
    }
    if found {
        Some((lo, hi))
    } else {
        None
    }
}

/// Identity-map every page of `[first, last]` with `flags | present`,
/// touching nothing outside the run.  Returns `false` on frame exhaustion
/// (pages of the run mapped so far stay mapped).
#[verifier::loop_isolation(false)]
fn identity_map_run<A: FrameAllocator>(
    table: &mut ActivePageTable,
    first: u64,
    last: u64,
    flags: EntryFlags,
    allocator: &mut A,
) -> (r: bool)
    requires
        old(table).frames_fit(),
        first <= last,
        index_fits(last),
        forall|p: u64| first <= p <= last ==> !old(table)@.contains_key(p),
    ensures
        final(table).frames_fit(),
        r ==> forall|p: u64|
            first <= p <= last ==> final(table)@.contains_key(p) && final(table)@[p].frame.0 == p
                && final(table)@[p].flags == flags.with_present(),
        forall|q: u64|
            !(first <= q <= last) ==> (final(table)@.contains_key(q) <==> old(table)@.contains_key(q)) && (old(table)@.contains_key(q) ==> final(table)@[q] == old(table)@[q]),
        forall|q: u64|
            first <= q <= last && final(table)@.contains_key(q) ==> final(table)@[q].frame.0 == q
                && final(table)@[q].flags == flags.with_present(),
    {
    let mut p = first;
    while p <= last
        invariant
            table.frames_fit(),
            first <= p,
            p <= last + 1,
            forall|q: u64|
                first <= q < p ==> table@.contains_key(q) && table@[q].frame.0 == q
                    && table@[q].flags == flags.with_present(),
            forall|q: u64| p <= q <= last ==> !table@.contains_key(q),
            forall|q: u64|
                !(first <= q <= last) ==> (table@.contains_key(q) <==> old(table)@.contains_key(q)) && (old(table)@.contains_key(q) ==> table@[q] == old(table)@[q]),
        decreases last + 1 - p,
    {
        let ok = table.identity_map(Frame(p), flags, allocator);
        if !ok {
            return false;
        }
        p += 1;
    }
    true
}

/// Build an entirely new, minimal address space: one identity mapping per
/// loadable ELF section with flags derived from the section's own
/// attributes, an identity mapping for the boot-information structure, and
/// nothing else — the bootloader's coarse identity map of all physical
/// memory is deliberately not carried over.  Every frame used comes from
/// the allocator, and construction completes fully before the handle to
/// the finished table is returned; switching the hardware translation root
/// to it is the embedding's one privileged step.  The table is built as a
/// value rather than through a transitional mapping of its frames, so there
/// is nothing to tear down after the switch.  Returns `None` only on frame
/// exhaustion; with nothing to map (no loadable section, empty boot-info
/// range) no frame is needed and the call succeeds.
#[verifier::loop_isolation(false)]
pub fn remap_kernel<A: FrameAllocator>(
    allocator: &mut A,
    sections: &Vec<ElfSection>,
    boot_info_start: PhysicalAddress,
    boot_info_end: PhysicalAddress,
) -> (r: Option<ActivePageTable>)
    requires
        forall|i: int, j: int, p: u64|
            0 <= i < sections@.len() && 0 <= j < sections@.len() && i != j ==> !(
            #[trigger] page_in_section(p, sections@[i]) && #[trigger] page_in_section(
                p,
                sections@[j],
            )),
        forall|i: int, p: u64|
            0 <= i < sections@.len() ==> !(#[trigger] page_in_section(p, sections@[i])
                && page_in_boot_info(p, boot_info_start.0, boot_info_end.0)),
    ensures
        (forall|i: int| 0 <= i < sections@.len() ==> !section_is_loadable(#[trigger] sections@[i]))
            && boot_info_start.0 >= boot_info_end.0 ==> r is Some,
        match r {
            Some(t) => {
                &&& t.frames_fit()
                &&& forall|i: int, p: u64|
                    0 <= i < sections@.len() && #[trigger] page_in_section(p, sections@[i])
                        ==> t@.contains_key(p) && t@[p].frame.0 == p && t@[p].flags
                        == section_flags(sections@[i].writable, sections@[i].executable)
                &&& forall|p: u64|
                    page_in_boot_info(p, boot_info_start.0, boot_info_end.0)
                        ==> t@.contains_key(p) && t@[p].frame.0 == p && t@[p].flags
                        == boot_info_flags()
                &&& forall|p: u64|
                    t@.contains_key(p) ==> (exists|i: int|
                        0 <= i < sections@.len() && #[trigger] page_in_section(p, sections@[i]))
                        || page_in_boot_info(p, boot_info_start.0, boot_info_end.0)
            },
            None => true,
        },
{
    let mut table = ActivePageTable::new_empty();
    let mut si: usize = 0;
    while si < sections.len()
        invariant
            table.frames_fit(),
            si <= sections.len(),
            forall|j: int, p: u64|
                0 <= j < si && #[trigger] page_in_section(p, sections@[j])
                    ==> table@.contains_key(p) && table@[p].frame.0 == p && table@[p].flags
                    == section_flags(sections@[j].writable, sections@[j].executable),
            forall|p: u64|
                #[trigger] table@.contains_key(p) ==> exists|j: int|
                    0 <= j < si && page_in_section(p, sections@[j]),
        decreases sections.len() - si,
    {
        let s = sections[si];
        if s.allocated && s.start < s.end {
            let first = s.start / PAGE_SIZE;
            let last = (s.end - 1) / PAGE_SIZE;
            proof {
                lemma_addr_index_fits((s.end - 1) as u64);
                vstd::arithmetic::div_mod::lemma_div_is_ordered(
                    s.start as int,
                    (s.end - 1) as int,
                    PAGE_SIZE as int,
                );
                assert forall|p: u64| first <= p <= last implies !table@.contains_key(p) by {
                    assert(page_in_section(p, sections@[si as int]));
                }
            }
            let ghost table0 = table;
            let ok = identity_map_run(
                &mut table,
                first,
                last,
                EntryFlags { present: true, writable: s.writable, no_execute: !s.executable },
                allocator,
            );
            if !ok {
                return None;
            }
            proof {
                assert forall|j: int, p: u64|
                    0 <= j < si + 1 && #[trigger] page_in_section(p, sections@[j]) implies
                    table@.contains_key(p) && table@[p].frame.0 == p && table@[p].flags
                    == section_flags(sections@[j].writable, sections@[j].executable) by {
                    if j < si {
                        assert(!page_in_section(p, sections@[si as int]));
                        assert(!(first <= p <= last));
                        assert(table0@.contains_key(p));
                    } else {
                        assert(page_in_section(p, sections@[si as int]));
                        assert(first <= p <= last);
                    }
                    assert(table@.contains_key(p));
                    assert(table@[p].frame.0 == p);
                    assert(table@[p].flags == section_flags(
                        sections@[j].writable,
                        sections@[j].executable,
                    ));
                }
                assert forall|p: u64| #[trigger] table@.contains_key(p) implies exists|j: int|
                    0 <= j < si + 1 && page_in_section(p, sections@[j]) by {
                    if first <= p <= last {
                        assert(page_in_section(p, sections@[si as int]));
                    } else {
                        assert(table0@.contains_key(p));
                    }
                }
            }
        }
        si += 1;
    }
    if boot_info_start.0 < boot_info_end.0 {
        let bfirst = boot_info_start.0 / PAGE_SIZE;
        let blast = (boot_info_end.0 - 1) / PAGE_SIZE;
        proof {
            lemma_addr_index_fits((boot_info_end.0 - 1) as u64);
            vstd::arithmetic::div_mod::lemma_div_is_ordered(
                boot_info_start.0 as int,
                (boot_info_end.0 - 1) as int,
                PAGE_SIZE as int,
            );
            assert forall|p: u64| bfirst <= p <= blast implies !table@.contains_key(p) by {
                assert(page_in_boot_info(p, boot_info_start.0, boot_info_end.0));
            }
        }
        let ok = identity_map_run(
            &mut table,
            bfirst,
            blast,
            EntryFlags { present: true, writable: false, no_execute: false },
            allocator,
        );
        if !ok {
            return None;
        }
    }
    Some(table)
}

} // verus!
