//! Tests for the stack allocator: guarded stacks, disjointness, and
//! exhaustion of the dedicated virtual range.

use vm_bootstrap::addr::{PhysicalAddress, VirtualAddress};
use vm_bootstrap::frame::{AreaFrameAllocator, MemoryArea};
use vm_bootstrap::memory::{HEAP_SIZE, HEAP_START, PAGE_SIZE};
use vm_bootstrap::paging::{remap_kernel, ActivePageTable, Page};
use vm_bootstrap::stack_allocator::StackAllocator;

fn big_allocator() -> AreaFrameAllocator {
    AreaFrameAllocator::new(
        PhysicalAddress::new(0),
        PhysicalAddress::new(0),
        PhysicalAddress::new(0),
        PhysicalAddress::new(0),
        vec![MemoryArea { base: 0x100_0000, length: 0x1000_0000, usable: true }],
    )
}

fn empty_table() -> ActivePageTable {
    let mut alloc = AreaFrameAllocator::new(
        PhysicalAddress::new(0),
        PhysicalAddress::new(0),
        PhysicalAddress::new(0),
        PhysicalAddress::new(0),
        vec![],
    );
    remap_kernel(&mut alloc, &vec![], PhysicalAddress::new(0), PhysicalAddress::new(0))
        .expect("an empty remap needs no frames")
}

/// The dedicated stack range immediately above the heap, 100 pages wide.
fn stack_allocator_above_heap() -> StackAllocator {
    let heap_end = VirtualAddress::new(HEAP_START + HEAP_SIZE);
    let heap_end_page = Page::containing_address(heap_end);
    StackAllocator::new(Page::range_inclusive(
        Page(heap_end_page.0 + 1),
        Page(heap_end_page.0 + 101),
    ))
}

#[test]
fn stack_has_guard_page_and_expected_bounds() {
    let mut table = empty_table();
    let mut frames = big_allocator();
    let mut stacks = stack_allocator_above_heap();
    let first_range_page = (HEAP_START + HEAP_SIZE) / PAGE_SIZE + 1;

    let stack = stacks.alloc_stack(&mut table, &mut frames, 4).expect("range has room");
    // the range's first page is the guard; the four after it are the stack
    assert_eq!(stack.bottom().as_u64(), (first_range_page + 1) * PAGE_SIZE);
    assert_eq!(stack.top().as_u64(), (first_range_page + 5) * PAGE_SIZE);
    assert!(!table.is_mapped(Page(first_range_page)), "guard page stays unmapped");
    for p in first_range_page + 1..first_range_page + 5 {
        let e = table.entry(Page(p)).expect("stack page mapped");
        assert!(e.flags.present && e.flags.writable && !e.flags.no_execute);
    }
    assert!(!table.is_mapped(Page(first_range_page + 5)));
    assert_eq!(table.mapped_count(), 4);
}

#[test]
fn consecutive_stacks_are_disjoint_with_one_guard_between() {
    let mut table = empty_table();
    let mut frames = big_allocator();
    let mut stacks = stack_allocator_above_heap();

    let first = stacks.alloc_stack(&mut table, &mut frames, 4).expect("room for the first");
    let second = stacks.alloc_stack(&mut table, &mut frames, 4).expect("room for the second");

    // disjoint, and separated by exactly one page
    assert!(first.top().as_u64() <= second.bottom().as_u64());
    assert_eq!(second.bottom().as_u64(), first.top().as_u64() + PAGE_SIZE);
    // the separating page is the second stack's guard, left unmapped
    let guard = Page(first.top().as_u64() / PAGE_SIZE);
    assert!(!table.is_mapped(guard));
}

#[test]
fn alloc_stack_fails_once_fewer_than_n_plus_one_pages_remain() {
    let mut table = empty_table();
    let mut frames = big_allocator();
    // a range of exactly 4 pages cannot hold a 4-page stack plus its guard
    let mut stacks = StackAllocator::new(Page::range_inclusive(Page(0x800), Page(0x803)));
    assert!(stacks.alloc_stack(&mut table, &mut frames, 4).is_none());
    assert_eq!(table.mapped_count(), 0);
    // a 3-page stack still fits (3 pages + 1 guard)
    let stack = stacks.alloc_stack(&mut table, &mut frames, 3).expect("3 + guard fit");
    assert_eq!(stack.bottom().as_u64(), 0x801 * PAGE_SIZE);
    assert_eq!(stack.top().as_u64(), 0x804 * PAGE_SIZE);
    // the range is now used up entirely
    assert!(stacks.alloc_stack(&mut table, &mut frames, 1).is_none());
}

#[test]
fn zero_page_stack_is_refused() {
    let mut table = empty_table();
    let mut frames = big_allocator();
    let mut stacks = stack_allocator_above_heap();
    assert!(stacks.alloc_stack(&mut table, &mut frames, 0).is_none());
}

#[test]
fn alloc_stack_fails_on_frame_exhaustion_without_consuming_the_range() {
    let mut table = empty_table();
    let mut no_frames = AreaFrameAllocator::new(
        PhysicalAddress::new(0),
        PhysicalAddress::new(0),
        PhysicalAddress::new(0),
        PhysicalAddress::new(0),
        vec![],
    );
    let mut stacks = stack_allocator_above_heap();
    assert!(stacks.alloc_stack(&mut table, &mut no_frames, 2).is_none());
    // the range was not consumed: with frames available the next call
    // succeeds at the front of the range
    let mut frames = big_allocator();
    let first_range_page = (HEAP_START + HEAP_SIZE) / PAGE_SIZE + 1;
    let stack = stacks.alloc_stack(&mut table, &mut frames, 2).expect("frames available now");
    assert_eq!(stack.bottom().as_u64(), (first_range_page + 1) * PAGE_SIZE);
}

#[test]
fn boot_flow_end_to_end() {
    // memory map, kernel image and boot information as one scenario:
    // remap the kernel, provision the heap, carve one stack
    let sections = vec![
        vm_bootstrap::paging::ElfSection {
            start: 0x10_0000,
            end: 0x10_3000,
            writable: false,
            executable: true,
            allocated: true,
        },
        vm_bootstrap::paging::ElfSection {
            start: 0x10_3000,
            end: 0x10_5000,
            writable: true,
            executable: false,
            allocated: true,
        },
    ];
    let mut frames = AreaFrameAllocator::new(
        PhysicalAddress::new(0x10_0000),
        PhysicalAddress::new(0x15_0000),
        PhysicalAddress::new(0x15_0000),
        PhysicalAddress::new(0x15_1000),
        vec![MemoryArea { base: 0x10_0000, length: 0x1f0_0000, usable: true }],
    );
    let mut table = remap_kernel(
        &mut frames,
        &sections,
        PhysicalAddress::new(0x15_0000),
        PhysicalAddress::new(0x15_1000),
    )
        .expect("remap succeeds");
    let mapped_after_remap = table.mapped_count();
    assert_eq!(mapped_after_remap, 5 + 1);

    let range = vm_bootstrap::memory::init_heap(&mut table, &mut frames).expect("heap fits");
    assert_eq!(range.0.as_u64(), HEAP_START);
    assert_eq!(
        table.mapped_count() as u64,
        mapped_after_remap as u64 + HEAP_SIZE / PAGE_SIZE,
    );

    let mut stacks = stack_allocator_above_heap();
    let stack = stacks.alloc_stack(&mut table, &mut frames, 4).expect("stack fits");
    assert!(stack.bottom().as_u64() > HEAP_START + HEAP_SIZE);
    assert_eq!(stack.top().as_u64() - stack.bottom().as_u64(), 4 * PAGE_SIZE);
}
