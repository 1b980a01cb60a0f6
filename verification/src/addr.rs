//! Canonical virtual addresses.

use vstd::prelude::*;

verus! {

/// The 17 highest bits of an address: bit 47 and everything above it.
pub open spec fn high_bits(addr: u64) -> u64 {
    addr >> 47
}

/// The canonical virtual address that `addr` stands for, if any.
///
/// Only the low 48 bits of a virtual address are used; bits 48 to 63 are
/// copies of bit 47.  An address of that form stands for itself.  One with
/// bit 47 set and nothing above it stands for its sign extension.  Every
/// other value holds data in its top bits and stands for no address.
pub open spec fn canonical_form(addr: u64) -> Option<u64> {
    if high_bits(addr) == 0 || high_bits(addr) == 0x1ffff {
        Some(addr)
    } else if high_bits(addr) == 1 {
        Some(addr | 0xffff_0000_0000_0000)
    } else {
        None
    }
}

/// Calls `x86_64::VirtAddr::try_new` and hands out the address as a number.
///
/// The contract restates the checks of `try_new`: bits 47 to 63 all clear or
/// all set keep the value, bit 47 alone set is sign-extended, anything else
/// is rejected.
#[verifier::external_body]
pub(crate) fn virt_addr(addr: u64) -> (canonical: Option<u64>)
    ensures
        canonical == canonical_form(addr),
{
    match x86_64::VirtAddr::try_new(addr) {
        Ok(virt) => Some(virt.as_u64()),
        Err(_) => None,
    }
}

/// Addresses below 2^47 are canonical as they are.
pub proof fn lemma_low_half_canonical(addr: u64)
    requires
        addr < 0x8000_0000_0000,
    ensures
        canonical_form(addr) == Some(addr),
{
    assert(addr < 0x8000_0000_0000 ==> addr >> 47 == 0) by (bit_vector);
}

} // verus!
