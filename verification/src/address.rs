//! Physical and virtual addresses of x86-64.
//!
//! Both kinds of address are 64-bit numbers of which the processor accepts
//! only a part: a physical address has its top 12 bits clear, a virtual
//! address has its top 17 bits all equal. The two types here hold addresses
//! that passed that test.

use vstd::prelude::*;
use x86_64::{PhysAddr, VirtAddr};

verus! {

/// One past the highest physical address: 2^52.
pub const PHYSICAL_LIMIT: u64 = 0x10_0000_0000_0000;

/// One past the highest address of the lower canonical half: 2^47.
pub const LOWER_HALF_END: u64 = 0x8000_0000_0000;

/// Lowest address of the upper canonical half: 2^64 - 2^47.
pub const UPPER_HALF_START: u64 = 0xffff_8000_0000_0000;

/// `addr` can be a physical address: bits 52 to 63 are clear.
pub open spec fn is_physical(addr: u64) -> bool {
    addr < PHYSICAL_LIMIT
}

/// `addr` can be a virtual address: bits 47 to 63 are all equal.
pub open spec fn is_canonical(addr: u64) -> bool {
    addr < LOWER_HALF_END || addr >= UPPER_HALF_START
}

/// Calls `x86_64::PhysAddr::try_new` and hands back the number it accepted.
/// The contract claims what that function documents: it accepts exactly the
/// numbers with bits 52 to 63 clear, and keeps them unchanged.
#[verifier::external_body]
fn checked_physical(addr: u64) -> (accepted: Option<u64>)
    ensures
        accepted == (if is_physical(addr) {
            Some(addr)
        } else {
            None
        }),
{
    match PhysAddr::try_new(addr) {
        Ok(p) => Some(p.as_u64()),
        Err(_) => None,
    }
}

/// Calls `x86_64::VirtAddr::try_new` and hands back the number it accepted.
/// The contract claims what that function documents: it accepts exactly the
/// numbers whose bits 48 to 63 copy bit 47, and keeps them unchanged.
#[verifier::external_body]
fn checked_virtual(addr: u64) -> (accepted: Option<u64>)
    ensures
        accepted == (if is_canonical(addr) {
            Some(addr)
        } else {
            None
        }),
{
    match VirtAddr::try_new(addr) {
        Ok(v) => Some(v.as_u64()),
        Err(_) => None,
    }
}

/// A valid physical address.
#[derive(Debug, Clone, Copy, PartialEq, Eq)]
pub struct PhysicalAddress(u64);

impl View for PhysicalAddress {
    type V = u64;

    closed spec fn view(&self) -> u64 {
        self.0
    }
}

impl PhysicalAddress {
    #[verifier::type_invariant]
    spec fn inv(self) -> bool {
        is_physical(self.0)
    }

    /// The physical address `addr`, if it is one.
    pub fn try_new(addr: u64) -> (result: Option<PhysicalAddress>)
        ensures
            result is Some <==> is_physical(addr),
            result matches Some(p) ==> p@ == addr,
    {
        match checked_physical(addr) {
            Some(accepted) => Some(PhysicalAddress(accepted)),
            None => None,
        }
    }

    /// The physical address `addr`, for a caller that has shown it to be one.
    pub fn new(addr: u64) -> (result: PhysicalAddress)
        requires
            is_physical(addr),
        ensures
            result@ == addr,
    {
        PhysicalAddress(addr)
    }

    /// The address as a number.
    pub fn as_u64(&self) -> (addr: u64)
        ensures
            addr == self@,
            is_physical(addr),
    {
        proof {
            use_type_invariant(self);
        }
        self.0
    }
}

/// A canonical virtual address.
#[derive(Debug, Clone, Copy, PartialEq, Eq)]
pub struct VirtualAddress(u64);

impl View for VirtualAddress {
    type V = u64;

    closed spec fn view(&self) -> u64 {
        self.0
    }
}

impl VirtualAddress {
    #[verifier::type_invariant]
    spec fn inv(self) -> bool {
        is_canonical(self.0)
    }

    /// The virtual address `addr`, if it is canonical.
    pub fn try_new(addr: u64) -> (result: Option<VirtualAddress>)
        ensures
            result is Some <==> is_canonical(addr),
            result matches Some(v) ==> v@ == addr,
    {
        match checked_virtual(addr) {
            Some(accepted) => Some(VirtualAddress(accepted)),
            None => None,
        }
    }

    /// The virtual address `addr`, for a caller that has shown it to be
    /// canonical.
    pub fn new(addr: u64) -> (result: VirtualAddress)
        requires
            is_canonical(addr),
        ensures
            result@ == addr,
    {
        VirtualAddress(addr)
    }

    /// The address as a number.
    pub fn as_u64(&self) -> (addr: u64)
        ensures
            addr == self@,
            is_canonical(addr),
    {
        proof {
            use_type_invariant(self);
        }
        self.0
    }
}

} // verus!
