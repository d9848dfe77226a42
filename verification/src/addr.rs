//! Address-space-tagged scalar address types.
//!
//! Physical and virtual addresses are distinct newtypes over a 64-bit
//! integer and are never implicitly interconvertible; the only bridge
//! between the two spaces is page-table translation, which can fail.

use vstd::prelude::*;

verus! {

/// An address in the virtual address space.
#[derive(Clone, Copy, Debug, PartialEq, Eq, Structural)]
pub struct VirtualAddress(pub u64);

impl VirtualAddress {
    pub fn new(address: u64) -> (r: VirtualAddress)
        ensures
            r.0 == address,
    {
        VirtualAddress(address)
    }

    pub fn null() -> (r: VirtualAddress)
        ensures
            r.0 == 0,
    {
        VirtualAddress(0)
    }

    pub fn as_u64(self) -> (r: u64)
        ensures
            r == self.0,
    {
        self.0
    }

    /// Offset the address upward by an unsigned delta.
    pub fn offset_add(self, delta: u64) -> (r: VirtualAddress)
        requires
            self.0 + delta <= u64::MAX,
        ensures
            r.0 == self.0 + delta,
    {
        VirtualAddress(self.0 + delta)
    }

    /// Offset the address downward by an unsigned delta.
    pub fn offset_sub(self, delta: u64) -> (r: VirtualAddress)
        requires
            delta <= self.0,
        ensures
            r.0 == self.0 - delta,
    {
        VirtualAddress(self.0 - delta)
    }
}

/// An address in the physical address space.
#[derive(Clone, Copy, Debug, PartialEq, Eq, Structural)]
pub struct PhysicalAddress(pub u64);

impl PhysicalAddress {
    pub fn new(address: u64) -> (r: PhysicalAddress)
        ensures
            r.0 == address,
    {
        PhysicalAddress(address)
    }

    pub fn as_u64(self) -> (r: u64)
        ensures
            r == self.0,
    {
        self.0
    }
}

} // verus!
