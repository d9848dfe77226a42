//! Tests for the address types and the area-scanning frame allocator.

use vm_bootstrap::addr::{PhysicalAddress, VirtualAddress};
use vm_bootstrap::frame::{AreaFrameAllocator, Frame, FrameAllocator, MemoryArea};
use vm_bootstrap::memory::PAGE_SIZE;

fn allocator_with(
    kernel: (u64, u64),
    multiboot: (u64, u64),
    areas: Vec<MemoryArea>,
) -> AreaFrameAllocator {
    AreaFrameAllocator::new(
        PhysicalAddress::new(kernel.0),
        PhysicalAddress::new(kernel.1),
        PhysicalAddress::new(multiboot.0),
        PhysicalAddress::new(multiboot.1),
        areas,
    )
}

#[test]
fn virtual_address_round_trip() {
    let v = VirtualAddress::new(0xdead_b000);
    assert_eq!(v.as_u64(), 0xdead_b000);
    assert_eq!(VirtualAddress::null().as_u64(), 0);
    assert_eq!(v.offset_add(0x1000).as_u64(), 0xdead_c000);
    assert_eq!(v.offset_sub(0xb000).as_u64(), 0xdead_0000);
}

#[test]
fn physical_address_round_trip() {
    let p = PhysicalAddress::new(0x15_1000);
    assert_eq!(p.as_u64(), 0x15_1000);
}

#[test]
fn frame_containing_address_floors() {
    assert_eq!(Frame::containing_address(PhysicalAddress::new(4095)).0, 0);
    assert_eq!(Frame::containing_address(PhysicalAddress::new(4096)).0, 1);
    assert_eq!(Frame::containing_address(PhysicalAddress::new(4097)).0, 1);
}

#[test]
fn first_frame_skips_both_exclusions() {
    // One usable area [0x100000, 0x2000000), kernel at [0x100000, 0x150000),
    // boot information at [0x150000, 0x151000): the first frame handed out
    // is 0x151, the first one past both exclusions.
    let mut alloc = allocator_with(
        (0x10_0000, 0x15_0000),
        (0x15_0000, 0x15_1000),
        vec![MemoryArea { base: 0x10_0000, length: 0x1f0_0000, usable: true }],
    );
    let first = alloc.allocate_frame().expect("a frame must be available");
    assert_eq!(first.0, 0x151);
}

#[test]
fn allocations_strictly_increase_and_avoid_exclusions() {
    let kernel = (0x10_0000u64, 0x15_0000u64);
    let multiboot = (0x15_0000u64, 0x15_1000u64);
    let mut alloc = allocator_with(
        kernel,
        multiboot,
        vec![
            MemoryArea { base: 0x10_0000, length: 0x5_8000, usable: true },
            MemoryArea { base: 0x20_0000, length: 0x4000, usable: true },
        ],
    );
    let mut last: Option<u64> = None;
    let mut count: usize = 0;
    while let Some(f) = alloc.allocate_frame() {
        if let Some(prev) = last {
            assert!(f.0 > prev, "frames must strictly increase");
        }
        let start = f.0 * PAGE_SIZE;
        let end = start + PAGE_SIZE;
        assert!(end <= kernel.0 || start >= kernel.1, "frame overlaps the kernel image");
        assert!(end <= multiboot.0 || start >= multiboot.1, "frame overlaps the boot info");
        last = Some(f.0);
        count += 1;
    }
    // area one: frames 0x100..=0x157, of which 0x100..=0x150 are excluded,
    // leaving 0x151..=0x157 -> 7; area two: frames 0x200..=0x203 -> 4
    assert_eq!(count, 11);
    assert_eq!(last, Some(0x203));
}

#[test]
fn unusable_areas_are_skipped() {
    let mut alloc = allocator_with(
        (0, 0),
        (0, 0),
        vec![
            MemoryArea { base: 0x1000, length: 0x2000, usable: false },
            MemoryArea { base: 0x5000, length: 0x1000, usable: true },
        ],
    );
    assert_eq!(alloc.allocate_frame().map(|f| f.0), Some(5));
    assert_eq!(alloc.allocate_frame(), None);
}

#[test]
fn areas_are_selected_in_base_order() {
    // The map lists the higher area first; allocation still starts in the
    // lower one and moves on when it is exhausted.
    let mut alloc = allocator_with(
        (0, 0),
        (0, 0),
        vec![
            MemoryArea { base: 0x8000, length: 0x1000, usable: true },
            MemoryArea { base: 0x2000, length: 0x2000, usable: true },
        ],
    );
    assert_eq!(alloc.allocate_frame().map(|f| f.0), Some(2));
    assert_eq!(alloc.allocate_frame().map(|f| f.0), Some(3));
    assert_eq!(alloc.allocate_frame().map(|f| f.0), Some(8));
    assert_eq!(alloc.allocate_frame(), None);
}

#[test]
fn empty_memory_map_yields_nothing() {
    let mut alloc = allocator_with((0, 0), (0, 0), vec![]);
    assert_eq!(alloc.allocate_frame(), None);
    assert_eq!(alloc.allocate_frame(), None);
}

#[test]
fn partial_frames_at_area_edges_are_not_handed_out() {
    // The area covers only part of frame 1 and part of frame 3: only
    // frame 2 lies fully inside it.
    let mut alloc = allocator_with(
        (0, 0),
        (0, 0),
        vec![MemoryArea { base: 0x1800, length: 0x2000, usable: true }],
    );
    assert_eq!(alloc.allocate_frame().map(|f| f.0), Some(2));
    assert_eq!(alloc.allocate_frame(), None);
}

#[test]
fn deallocate_frame_is_a_no_op() {
    let mut alloc = allocator_with(
        (0, 0),
        (0, 0),
        vec![MemoryArea { base: 0x1000, length: 0x1000, usable: true }],
    );
    let f = alloc.allocate_frame().unwrap();
    alloc.deallocate_frame(f);
    // the bootstrap allocator reclaims nothing
    assert_eq!(alloc.allocate_frame(), None);
}
