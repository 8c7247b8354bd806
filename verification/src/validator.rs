//! Address-validity policy: decides whether a requested memory range is safe
//! to write, given the device's writable range and the sub-range reserved for
//! the running bootloader.

use vstd::prelude::*;

verus! {

/// Immutable description of the device's memory layout: the half-open
/// writable range `[writable_start, writable_end)` and the half-open
/// reserved range `[reserved_start, reserved_end)` occupied by the running
/// bootloader. Established once at startup; never mutated.
#[derive(Clone, Copy, Debug)]
pub struct MemoryRegion {
    pub writable_start: u32,
    pub writable_end: u32,
    pub reserved_start: u32,
    pub reserved_end: u32,
}

impl MemoryRegion {
    /// The reserved range is a sub-range of the writable range.
    pub open spec fn wf(self) -> bool {
        &&& self.writable_start <= self.reserved_start
        &&& self.reserved_start <= self.reserved_end
        &&& self.reserved_end <= self.writable_end
    }

    pub fn new(
        writable_start: u32,
        writable_end: u32,
        reserved_start: u32,
        reserved_end: u32,
    ) -> (r: MemoryRegion)
        requires
            writable_start <= reserved_start,
            reserved_start <= reserved_end,
            reserved_end <= writable_end,
        ensures
            r.wf(),
            r == (MemoryRegion { writable_start, writable_end, reserved_start, reserved_end }),
    {
        MemoryRegion { writable_start, writable_end, reserved_start, reserved_end }
    }
}

/// The acceptance policy for a write of `length` bytes starting at `address`:
/// the range must not overflow the 32-bit address width, must lie entirely
/// inside the writable range, and must not intersect the reserved range.
pub open spec fn is_writable_spec(region: MemoryRegion, address: u32, length: u32) -> bool {
    &&& address + length <= u32::MAX
    &&& region.writable_start <= address
    &&& address + length <= region.writable_end
    &&& (address + length <= region.reserved_start || region.reserved_end <= address)
}

/// Pure acceptance check for the range `[address, address + length)`.
pub fn is_writable(region: &MemoryRegion, address: u32, length: u32) -> (r: bool)
    ensures
        r == is_writable_spec(*region, address, length),
{
    match address.checked_add(length) {
        None => false,
        Some(end) => {
            region.writable_start <= address && end <= region.writable_end && (end
                <= region.reserved_start || region.reserved_end <= address)
        },
    }
}

/// Any range whose end overflows the 32-bit address width is rejected.
pub proof fn lemma_overflow_rejected(region: MemoryRegion, address: u32, length: u32)
    requires
        address + length > u32::MAX,
    ensures
        !is_writable_spec(region, address, length),
{
}

/// Any range fully inside the writable range and disjoint from the reserved
/// range is accepted.
pub proof fn lemma_in_range_accepted(region: MemoryRegion, address: u32, length: u32)
    requires
        address + length <= u32::MAX,
        region.writable_start <= address,
        address + length <= region.writable_end,
        address + length <= region.reserved_start || region.reserved_end <= address,
    ensures
        is_writable_spec(region, address, length),
{
}

/// Boundary exactness above the reserved range: a range that starts exactly
/// at `reserved_end` is accepted, and sliding the same range down by one
/// byte, so that it covers the reserved range's last byte, flips the result
/// to rejection.
pub proof fn lemma_boundary_exact_above(region: MemoryRegion, address: u32, length: u32)
    requires
        region.wf(),
        region.reserved_start < region.reserved_end,
        1 <= length,
        address == region.reserved_end,
        address + length <= region.writable_end,
        address + length <= u32::MAX,
    ensures
        is_writable_spec(region, address, length),
        !is_writable_spec(region, (address - 1) as u32, length),
{
}

/// Boundary exactness below the reserved range: a range that ends exactly at
/// `reserved_start` is accepted, and sliding the same range up by one byte,
/// so that it covers `reserved_start`, flips the result to rejection.
pub proof fn lemma_boundary_exact(region: MemoryRegion, address: u32, length: u32)
    requires
        region.wf(),
        region.reserved_start < region.reserved_end,
        1 <= length,
        region.writable_start <= address,
        address + length == region.reserved_start,
        address + length + 1 <= region.writable_end,
    ensures
        is_writable_spec(region, address, length),
        !is_writable_spec(region, (address + 1) as u32, length),
{
}

} // verus!
