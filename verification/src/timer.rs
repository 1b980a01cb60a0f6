//! The programmable interval timer: what to program it with.

use vstd::prelude::*;

verus! {

/// Frequency of the timer's input clock, in Hertz.
pub const PIT_INPUT_FREQUENCY: u32 = 1193180;

/// The divisor that makes the timer fire `hz` times a second: the input
/// frequency divided by `hz`, of which the timer takes the low 16 bits.
pub open spec fn divisor_for(hz: u32) -> int {
    (PIT_INPUT_FREQUENCY as int / hz as int) % 0x1_0000
}

/// The divisor to program the timer with for `hz` interrupts a second.
pub fn pit_divisor(hz: u32) -> (divisor: u16)
    requires
        hz > 0,
    ensures
        divisor == divisor_for(hz),
{
    let quotient: u32 = PIT_INPUT_FREQUENCY / hz;
    let divisor = #[verifier::truncate] (quotient as u16);
    assert(quotient as u16 == quotient % 0x1_0000) by (bit_vector);
    divisor
}

/// The two bytes in which a divisor is written to the timer, low byte
/// first.
pub fn divisor_bytes(divisor: u16) -> (bytes: (u8, u8))
    ensures
        bytes.0 == divisor % 0x100,
        bytes.1 == divisor / 0x100,
{
    let low = #[verifier::truncate] ((divisor & 0xFF) as u8);
    let high = #[verifier::truncate] ((divisor >> 8) as u8);
    assert((divisor & 0xFF) as u8 == divisor % 0x100) by (bit_vector);
    assert((divisor >> 8) as u8 == divisor / 0x100) by (bit_vector);
    (low, high)
}

} // verus!
