//! AArch64 exceptions: decoding the syndrome register.

use vstd::prelude::*;

verus! {

/// The exception class field (bits 26..31) of an ESR value.
pub fn exception_class(esr: u64) -> (ec: u64)
    ensures
        ec == (esr / 0x400_0000) % 64,
{
    assert((esr >> 26) & 0x3f == (esr / 0x400_0000) % 64) by (bit_vector);
    (esr >> 26) & 0x3f
}

} // verus!
