//! AArch64 MMU set-up: level-1 block descriptors.
//!
//! One L1 table of 1 GiB blocks, 39-bit address space; the first 4 GiB are identity
//! mapped: the first gigabyte as device memory (MMIO), the rest as normal cacheable memory.

use vstd::prelude::*;

verus! {

/// MAIR index of device-nGnRnE memory.
pub const MAIR_DEVICE: u64 = 0;

/// MAIR index of normal write-back memory.
pub const MAIR_NORMAL: u64 = 1;

/// Descriptor bits.
pub const VALID: u64 = 1;

/// Bit 1 clear: a block, not a table.
pub const BLOCK: u64 = 0;

/// Access flag.
pub const AF: u64 = 0x400;

/// Inner shareable.
pub const SH_INNER: u64 = 0x300;

/// The memory-attribute index field for MAIR index `idx`.
pub fn attr_idx(idx: u64) -> (r: u64)
    requires
        idx < 8,
    ensures
        r == idx * 4,
{
    assert(idx << 2 == idx * 4) by (bit_vector)
        requires
            idx < 8,
    ;
    idx << 2
}

/// The level-1 block descriptor mapping the gigabyte at physical address `pa` with MAIR
/// index `mair_index`: valid, block, accessed, inner shareable.
pub fn build_block(pa: u64, mair_index: u64) -> (d: u64)
    requires
        mair_index < 8,
    ensures
        d == pa | ((mair_index * 4) as u64) | SH_INNER | AF | BLOCK | VALID,
{
    pa | attr_idx(mair_index) | SH_INNER | AF | BLOCK | VALID
}

/// A descriptor for a gigabyte-aligned address below 2^40 is valid, a block, accessed,
/// inner shareable, carries its MAIR index in bits 2..5, and gives back its address.
pub proof fn law_block_fields(pa: u64, mair_index: u64)
    requires
        mair_index < 8,
        pa % 0x4000_0000 == 0,
        pa < 0x100_0000_0000,
    ensures
        ({
            let d = pa | ((mair_index * 4) as u64) | SH_INNER | AF | BLOCK | VALID;
            &&& d & 1 == 1
            &&& d & 2 == 0
            &&& (d >> 2) & 7 == mair_index
            &&& (d >> 8) & 3 == 3
            &&& (d >> 10) & 1 == 1
            &&& d & 0xff_c000_0000 == pa
        }),
{
    assert(({
        let d = pa | ((mair_index * 4) as u64) | 0x300u64 | 0x400u64 | 0u64 | 1u64;
        &&& d & 1 == 1
        &&& d & 2 == 0
        &&& (d >> 2) & 7 == mair_index
        &&& (d >> 8) & 3 == 3
        &&& (d >> 10) & 1 == 1
        &&& d & 0xff_c000_0000 == pa
    })) by (bit_vector)
        requires
            mair_index < 8,
            pa % 0x4000_0000 == 0,
            pa < 0x100_0000_0000,
    ;
}

/// Number of entries of a level-1 table.
pub const L1_ENTRIES: usize = 512;

/// Entry `i` of the kernel's level-1 table: the gigabyte at `i` GiB mapped to itself, the
/// first as device memory and the next three as normal memory; the rest unmapped.
pub open spec fn l1_entry(i: int) -> u64 {
    if i == 0 {
        (0x300u64 | 0x400u64 | 1u64) as u64
    } else if 0 < i < 4 {
        ((i * 0x4000_0000) as u64 | 4u64 | 0x300u64 | 0x400u64 | 1u64) as u64
    } else {
        0
    }
}

/// The kernel's level-1 table.
pub fn l1_table() -> (t: [u64; 512])
    ensures
        forall|i: int| 0 <= i < 512 ==> #[trigger] t@[i] == l1_entry(i),
{
    let mut t = [0u64; 512];
    t[0] = build_block(0x0000_0000, MAIR_DEVICE);
    t[1] = build_block(0x4000_0000, MAIR_NORMAL);
    t[2] = build_block(0x8000_0000, MAIR_NORMAL);
    t[3] = build_block(0xC000_0000, MAIR_NORMAL);
    assert(0u64 | 0u64 | 0x300u64 | 0x400u64 | 0u64 | 1u64 == 0x300u64 | 0x400u64 | 1u64) by (bit_vector);
    assert forall|b: u64| #![auto] (b | 4u64 | 0x300u64 | 0x400u64 | 0u64 | 1u64) == (b | 4u64 | 0x300u64 | 0x400u64 | 1u64) by {
        assert((b | 4u64 | 0x300u64 | 0x400u64 | 0u64 | 1u64) == (b | 4u64 | 0x300u64 | 0x400u64 | 1u64)) by (bit_vector);
    }
    t
}

/// The first 4 GiB are identity mapped: an address below 4 GiB is covered by a valid block
/// entry whose output address is the address's own gigabyte, device memory below 1 GiB and
/// normal memory above; every other entry is invalid.
pub proof fn law_identity_map(pa: u64, i: int)
    requires
        0 <= i < 512,
    ensures
        pa < 0x1_0000_0000 ==> ({
            let d = l1_entry((pa / 0x4000_0000) as int);
            &&& d & 1 == 1
            &&& d & 2 == 0
            &&& d & 0xff_c000_0000 == pa - pa % 0x4000_0000
            &&& (d >> 2) & 7 == if pa < 0x4000_0000 { MAIR_DEVICE } else { MAIR_NORMAL }
        }),
        i >= 4 ==> l1_entry(i) & 1 == 0,
{
    if pa < 0x1_0000_0000 {
        let k = (pa / 0x4000_0000) as int;
        let base = (k * 0x4000_0000) as u64;
        if k == 0 {
            law_block_fields(0, MAIR_DEVICE);
            assert(0u64 | 0u64 | 0x300u64 | 0x400u64 | 0u64 | 1u64 == 0x300u64 | 0x400u64 | 1u64) by (bit_vector);
        } else {
            law_block_fields(base, MAIR_NORMAL);
            assert(base | 4u64 | 0x300u64 | 0x400u64 | 0u64 | 1u64 == base | 4u64 | 0x300u64 | 0x400u64 | 1u64) by (bit_vector);
        }
    }
    assert(0u64 & 1 == 0) by (bit_vector);
}

} // verus!
