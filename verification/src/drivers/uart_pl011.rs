//! PL011 UART of the QEMU `virt` machine (MMIO 0x09000000): what it sends for a string.

use vstd::prelude::*;
use vstd::string::StringSliceAdditionalSpecFns;

verus! {

/// Base address of the PL011 on `virt`.
pub const PL011_BASE: usize = 0x0900_0000;

/// Data register.
pub const UART_DR: usize = 0x000;

/// Flag register.
pub const UART_FR: usize = 0x018;

/// Transmit FIFO full.
pub const FR_TXFF: u32 = 0x20;

/// The PL011 UART (QEMU has already enabled it).
pub struct Pl011Uart;

impl Pl011Uart {
    pub fn new() -> (u: Self) {
        Self
    }
}

/// The bytes sent for `bytes`: a carriage return goes before every line feed.
pub open spec fn crlf(bytes: Seq<u8>) -> Seq<u8>
    decreases bytes.len(),
{
    if bytes.len() == 0 {
        Seq::empty()
    } else {
        let rest = crlf(bytes.drop_last());
        if bytes.last() == 10 {
            rest.push(13).push(10)
        } else {
            rest.push(bytes.last())
        }
    }
}

/// The bytes sent for `s`.
pub fn tx_bytes(s: &str) -> (out: Vec<u8>)
    ensures
        out@ == crlf(s.spec_bytes()),
{
    let bytes = s.as_bytes();
    let mut out: Vec<u8> = Vec::new();
    let mut i: usize = 0;
    while i < bytes.len()
        invariant
            0 <= i <= bytes@.len(),
            bytes@ == s.spec_bytes(),
            out@ == crlf(bytes@.subrange(0, i as int)),
        decreases bytes@.len() - i,
    {
        let byte = bytes[i];
        assert(bytes@.subrange(0, i + 1).drop_last() =~= bytes@.subrange(0, i as int));
        if byte == 10 {
            out.push(13);
        }
        out.push(byte);
        i += 1;
    }
    assert(bytes@.subrange(0, bytes@.len() as int) =~= bytes@);
    out
}

/// The bytes with every carriage return dropped.
pub open spec fn drop_cr(bytes: Seq<u8>) -> Seq<u8>
    decreases bytes.len(),
{
    if bytes.len() == 0 {
        Seq::empty()
    } else if bytes.last() == 13 {
        drop_cr(bytes.drop_last())
    } else {
        drop_cr(bytes.drop_last()).push(bytes.last())
    }
}

/// Number of line feeds in `bytes`.
pub open spec fn count_lf(bytes: Seq<u8>) -> nat
    decreases bytes.len(),
{
    if bytes.len() == 0 {
        0
    } else {
        count_lf(bytes.drop_last()) + if bytes.last() == 10 { 1nat } else { 0 }
    }
}

/// Sending adds one carriage return per line feed and nothing else: the output is one
/// byte longer per line feed, and dropping the carriage returns of the output of text
/// without any gives the text back.
pub proof fn law_crlf(bytes: Seq<u8>)
    ensures
        crlf(bytes).len() == bytes.len() + count_lf(bytes),
        (forall|i: int| 0 <= i < bytes.len() ==> bytes[i] != 13) ==> drop_cr(crlf(bytes)) == bytes,
    decreases bytes.len(),
{
    if bytes.len() > 0 {
        let init = bytes.drop_last();
        law_crlf(init);
        if forall|i: int| 0 <= i < bytes.len() ==> bytes[i] != 13 {
            assert(forall|i: int| 0 <= i < init.len() ==> init[i] != 13);
            let rest = crlf(init);
            assert(bytes.last() != 13);
            if bytes.last() == 10 {
                assert(rest.push(13).push(10).drop_last() =~= rest.push(13));
                assert(rest.push(13).drop_last() =~= rest);
                assert(drop_cr(rest.push(13).push(10)) == drop_cr(rest.push(13)).push(10));
            } else {
                assert(rest.push(bytes.last()).drop_last() =~= rest);
            }
        }
    }
}

} // verus!
