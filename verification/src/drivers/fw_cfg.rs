//! QEMU fw_cfg (at 0x09020000 on `virt`): the file directory and DMA writes.
//!
//! Registers and directory entries are big-endian.

use vstd::prelude::*;
use crate::drivers::ramfb::from_be32;
use vstd::string::StringSliceAdditionalSpecFns;

verus! {

pub const FW_CFG_BASE: usize = 0x0902_0000;

pub const FW_CFG_DATA: usize = FW_CFG_BASE + 0x00;

pub const FW_CFG_SEL: usize = FW_CFG_BASE + 0x08;

pub const FW_CFG_DMA: usize = FW_CFG_BASE + 0x10;

/// Selector of the file directory.
pub const SEL_FILE_DIR: u16 = 0x19;

pub const DMA_CTL_ERROR: u32 = 0x01;

pub const DMA_CTL_READ: u32 = 0x02;

pub const DMA_CTL_SKIP: u32 = 0x04;

pub const DMA_CTL_SELECT: u32 = 0x08;

pub const DMA_CTL_WRITE: u32 = 0x10;

/// Bytes of one directory entry: size (4), selector (2), reserved (2), name (56).
pub const FILE_ENTRY_SIZE: usize = 64;

/// Most polls of a DMA transfer before it is given up.
pub const DMA_MAX_SPINS: u32 = 1_000_000;

/// A fw_cfg file directory entry.
#[derive(Clone, Copy)]
pub struct FwCfgFile {
    pub size: u32,
    pub select: u16,
    pub _reserved: u16,
    /// ASCII, NUL-terminated.
    pub name: [u8; 56],
}

/// The value of two big-endian bytes.
pub open spec fn from_be16(b: Seq<u8>) -> int {
    b[0] * 0x100 + b[1]
}

/// Length of the name in `name`: up to its first NUL, or all 56 bytes.
pub open spec fn name_len(name: Seq<u8>) -> int {
    if exists|i: int| 0 <= i < name.len() && name[i] == 0 {
        choose|i: int| 0 <= i < name.len() && name[i] == 0 && forall|j: int| 0 <= j < i ==> name[j] != 0
    } else {
        name.len() as int
    }
}

/// Reads a directory entry from its 64 bytes; the reserved field is not kept.
pub fn parse_file_entry(raw: &[u8; 64]) -> (e: FwCfgFile)
    ensures
        e.size == from_be32(raw@.subrange(0, 4)),
        e.select == from_be16(raw@.subrange(4, 6)),
        e._reserved == 0,
        e.name@ == raw@.subrange(8, 64),
{
    let size = ((raw[0] as u32) << 24) | ((raw[1] as u32) << 16) | ((raw[2] as u32) << 8) | (raw[3] as u32);
    let (b0, b1, b2, b3) = (raw[0], raw[1], raw[2], raw[3]);
    assert(size == b0 * 0x100_0000 + b1 * 0x1_0000 + b2 * 0x100 + b3) by (bit_vector)
        requires
            size == ((b0 as u32) << 24) | ((b1 as u32) << 16) | ((b2 as u32) << 8) | (b3 as u32),
    ;
    let (s0, s1) = (raw[4], raw[5]);
    let select = ((s0 as u16) << 8) | (s1 as u16);
    assert(select == s0 * 0x100 + s1) by (bit_vector)
        requires
            select == ((s0 as u16) << 8) | (s1 as u16),
    ;
    let mut name = [0u8; 56];
    let mut i: usize = 0;
    while i < 56
        invariant
            0 <= i <= 56,
            forall|j: int| 0 <= j < i ==> name@[j] == raw@[8 + j],
        decreases 56 - i,
    {
        name[i] = raw[8 + i];
        i += 1;
    }
    FwCfgFile { size, select, _reserved: 0, name }
}

/// Whether the name of `entry` is `target`: the bytes before its first NUL (all 56 when
/// there is none) equal the bytes of `target`.
pub fn name_matches(entry: &FwCfgFile, target: &str) -> (b: bool)
    ensures
        b == (entry.name@.subrange(0, name_len(entry.name@)) == target.spec_bytes()),
{
    let mut n: usize = 0;
    while n < 56 && entry.name[n] != 0
        invariant
            0 <= n <= 56,
            forall|j: int| 0 <= j < n ==> entry.name@[j] != 0,
        decreases 56 - n,
    {
        n += 1;
    }
    proof {
        if n < 56 {
            let c = choose|i: int|
                0 <= i < 56 && entry.name@[i] == 0 && forall|j: int| 0 <= j < i ==> entry.name@[j] != 0;
            assert(c == n);
        }
    }
    let bytes = target.as_bytes();
    if bytes.len() != n {
        return false;
    }
    let mut i: usize = 0;
    while i < n
        invariant
            0 <= i <= n,
            n <= 56,
            bytes@.len() == n,
            bytes@ == target.spec_bytes(),
            forall|j: int| 0 <= j < i ==> entry.name@[j] == bytes@[j],
        decreases n - i,
    {
        if entry.name[i] != bytes[i] {
            return false;
        }
        i += 1;
    }
    assert(entry.name@.subrange(0, n as int) =~= bytes@);
    true
}

/// The DMA control word that writes to the file with selector `selector`.
pub fn dma_write_control(selector: u16) -> (c: u32)
    ensures
        c == DMA_CTL_SELECT + DMA_CTL_WRITE + selector * 0x1_0000,
{
    let c = DMA_CTL_SELECT | DMA_CTL_WRITE | ((selector as u32) << 16);
    assert(c == 0x18 + selector * 0x1_0000) by (bit_vector)
        requires
            c == 0x08u32 | 0x10u32 | ((selector as u32) << 16),
    ;
    c
}

/// What to do after reading the control word of a DMA transfer.
#[derive(Clone, Copy, PartialEq, Eq, Structural, Debug)]
pub enum DmaPoll {
    /// The transfer finished.
    Done,
    /// The transfer failed or took too long; the control word as read.
    Failed(u32),
    /// Poll again; the number of polls so far.
    Wait(u32),
}

/// The decision after reading control word `cur` with `spins` polls done: an error bit
/// fails, a clear word finishes, else the poll is counted and more than `DMA_MAX_SPINS`
/// polls fail.
pub open spec fn dma_poll_spec(cur: u32, spins: u32) -> DmaPoll {
    if cur & DMA_CTL_ERROR != 0 {
        DmaPoll::Failed(cur)
    } else if cur == 0 {
        DmaPoll::Done
    } else if spins + 1 > DMA_MAX_SPINS {
        DmaPoll::Failed(cur)
    } else {
        DmaPoll::Wait((spins + 1) as u32)
    }
}

/// Decides what follows reading control word `cur` after `spins` polls.
pub fn dma_poll(cur: u32, spins: u32) -> (p: DmaPoll)
    requires
        spins <= DMA_MAX_SPINS,
    ensures
        p == dma_poll_spec(cur, spins),
{
    if cur & DMA_CTL_ERROR != 0 {
        return DmaPoll::Failed(cur);
    }
    if cur == 0 {
        return DmaPoll::Done;
    }
    let spins = spins + 1;
    if spins > DMA_MAX_SPINS {
        return DmaPoll::Failed(cur);
    }
    DmaPoll::Wait(spins)
}

/// A transfer that never finishes is given up: polling stops after at most
/// `DMA_MAX_SPINS` waits.
pub proof fn law_dma_poll_bounded(cur: u32, spins: u32)
    requires
        spins <= DMA_MAX_SPINS,
    ensures
        dma_poll_spec(cur, spins) matches DmaPoll::Wait(n) ==> n == spins + 1 && n <= DMA_MAX_SPINS,
        spins == DMA_MAX_SPINS ==> !(dma_poll_spec(cur, spins) is Wait),
{
}

} // verus!
