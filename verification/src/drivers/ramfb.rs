//! QEMU `ramfb`: a framebuffer in RAM announced to QEMU through fw_cfg.
//!
//! The "etc/ramfb" fw_cfg file takes a 28-byte big-endian configuration: framebuffer
//! address, DRM pixel format, flags, width, height, stride. Pixels are XRGB8888.

use vstd::prelude::*;

verus! {

pub const FB_WIDTH: u32 = 800;

pub const FB_HEIGHT: u32 = 600;

pub const FB_BPP: u32 = 4;

pub const FB_STRIDE: u32 = FB_WIDTH * FB_BPP;

pub const FB_SIZE: usize = 1_920_000;

/// DRM_FORMAT_XRGB8888: unused byte, R, G, B (low to high).
pub const DRM_FORMAT_XRGB8888: u32 = 0x34325258;

/// Size of the ramfb configuration.
pub const RAMFB_CFG_SIZE: usize = 28;

/// The big-endian bytes of `v`.
pub open spec fn be32(v: u32) -> Seq<u8> {
    seq![(v / 0x100_0000) as u8, ((v / 0x1_0000) % 0x100) as u8, ((v / 0x100) % 0x100) as u8, (v % 0x100) as u8]
}

/// The big-endian bytes of `v`.
pub open spec fn be64(v: u64) -> Seq<u8> {
    be32((v / 0x1_0000_0000) as u32) + be32((v % 0x1_0000_0000) as u32)
}

/// The value of four big-endian bytes.
pub open spec fn from_be32(b: Seq<u8>) -> int {
    b[0] * 0x100_0000 + b[1] * 0x1_0000 + b[2] * 0x100 + b[3]
}

/// The ramfb configuration for a framebuffer at `addr`, `w` x `h` pixels, `stride` bytes a row.
pub open spec fn ramfb_cfg(addr: u64, w: u32, h: u32, stride: u32) -> Seq<u8> {
    be64(addr) + be32(DRM_FORMAT_XRGB8888) + be32(0) + be32(w) + be32(h) + be32(stride)
}

/// Writes the big-endian bytes of `v` at `buf[at..at + 4]`.
fn put_be32(buf: &mut [u8; 28], at: usize, v: u32)
    requires
        at + 4 <= 28,
    ensures
        final(buf)@ == old(buf)@.subrange(0, at as int) + be32(v) + old(buf)@.subrange(at + 4, 28),
{
    buf[at] = (v >> 24) as u8;
    buf[at + 1] = ((v >> 16) & 0xff) as u8;
    buf[at + 2] = ((v >> 8) & 0xff) as u8;
    buf[at + 3] = (v & 0xff) as u8;
    assert((v >> 24) == v / 0x100_0000) by (bit_vector);
    assert(((v >> 16) & 0xff) == (v / 0x1_0000) % 0x100) by (bit_vector);
    assert(((v >> 8) & 0xff) == (v / 0x100) % 0x100) by (bit_vector);
    assert((v & 0xff) == v % 0x100) by (bit_vector);
}

/// The 28-byte ramfb configuration: address, XRGB8888 format, no flags, width, height and
/// stride, each big-endian.
pub fn build_cfg(addr: u64, w: u32, h: u32, stride: u32) -> (cfg: [u8; 28])
    ensures
        cfg@ == ramfb_cfg(addr, w, h, stride),
{
    let mut buf = [0u8; 28];
    put_be32(&mut buf, 0, (addr >> 32) as u32);
    put_be32(&mut buf, 4, (addr & 0xffff_ffff) as u32);
    put_be32(&mut buf, 8, DRM_FORMAT_XRGB8888);
    put_be32(&mut buf, 12, 0);
    put_be32(&mut buf, 16, w);
    put_be32(&mut buf, 20, h);
    put_be32(&mut buf, 24, stride);
    assert((addr >> 32) as u32 == (addr / 0x1_0000_0000) as u32) by (bit_vector);
    assert((addr & 0xffff_ffff) as u32 == (addr % 0x1_0000_0000) as u32) by (bit_vector);
    buf
}

/// The big-endian encoding is undone by reading the bytes back: every field of a
/// configuration reads back as the value written.
pub proof fn law_cfg_round_trip(addr: u64, w: u32, h: u32, stride: u32)
    ensures
        ({
            let c = ramfb_cfg(addr, w, h, stride);
            &&& c.len() == RAMFB_CFG_SIZE
            &&& from_be32(c.subrange(0, 4)) * 0x1_0000_0000 + from_be32(c.subrange(4, 8)) == addr
            &&& from_be32(c.subrange(8, 12)) == DRM_FORMAT_XRGB8888
            &&& from_be32(c.subrange(12, 16)) == 0
            &&& from_be32(c.subrange(16, 20)) == w
            &&& from_be32(c.subrange(20, 24)) == h
            &&& from_be32(c.subrange(24, 28)) == stride
        }),
{
    lemma_be32_round_trip((addr / 0x1_0000_0000) as u32);
    lemma_be32_round_trip((addr % 0x1_0000_0000) as u32);
    lemma_be32_round_trip(DRM_FORMAT_XRGB8888);
    lemma_be32_round_trip(0);
    lemma_be32_round_trip(w);
    lemma_be32_round_trip(h);
    lemma_be32_round_trip(stride);
    let c = ramfb_cfg(addr, w, h, stride);
}

/// Four big-endian bytes read back as the value they encode.
pub proof fn lemma_be32_round_trip(v: u32)
    ensures
        be32(v).len() == 4,
        from_be32(be32(v)) == v,
{
}

} // verus!
