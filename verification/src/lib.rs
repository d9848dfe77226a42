//! Virtual-memory bootstrap core of a bare-metal kernel, as verified logic.
//!
//! The crate turns a bootloader-provided physical memory map and an ELF
//! section layout into a managed address space: an area-scanning frame
//! allocator hands out physical frames, a page-table model maps virtual
//! pages to frames, the kernel image is remapped into a fresh minimal
//! table, a fixed heap range is provisioned, and guarded stacks are carved
//! from a dedicated virtual region.  The privileged hardware steps (reading
//! the boot structure out of raw memory, volatile table writes, switching
//! the translation root, initializing the process-wide heap allocator)
//! belong to the unverified embedding; this crate holds every decision and
//! every data structure, with contracts.

pub mod addr;
pub mod frame;
pub mod memory;
pub mod paging;
pub mod stack_allocator;
