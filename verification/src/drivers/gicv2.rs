//! GIC v2 interrupt controller of the QEMU `virt` machine: register arithmetic.
//!
//! Distributor (GICD) at 0x0800_0000, CPU interface (GICC) at 0x0801_0000.

use vstd::prelude::*;

verus! {

pub const GICD_BASE: usize = 0x0800_0000;

pub const GICC_BASE: usize = 0x0801_0000;

pub const GICD_CTLR: usize = 0x000;

pub const GICD_TYPER: usize = 0x004;

/// 32 interrupts per register.
pub const GICD_ISENABLER: usize = 0x100;

/// 4 interrupts per register.
pub const GICD_IPRIORITYR: usize = 0x400;

/// 4 interrupts per register.
pub const GICD_ITARGETSR: usize = 0x800;

/// 16 interrupts per register.
pub const GICD_ICFGR: usize = 0xC00;

pub const GICC_CTLR: usize = 0x00;

pub const GICC_PMR: usize = 0x04;

pub const GICC_IAR: usize = 0x0C;

pub const GICC_EOIR: usize = 0x10;

/// The interrupt number reported for "no pending interrupt".
pub const SPURIOUS_IRQ: u32 = 1023;

/// Priority given to enabled interrupts.
pub const IRQ_PRIORITY: u32 = 0xa0;

/// The address of the set-enable register of `irq` and the bit that enables it.
pub fn isenabler(irq: u32) -> (r: (usize, u32))
    ensures
        r.0 == GICD_BASE + GICD_ISENABLER + (irq / 32) * 4,
        r.1 == 1u32 << (irq % 32),
{
    let reg = (irq / 32) as usize;
    let bit = irq % 32;
    (GICD_BASE + GICD_ISENABLER + reg * 4, 1u32 << bit)
}

/// The address of the 4-interrupt byte register (priorities at `base`, targets at
/// `GICD_ITARGETSR`) that holds `irq`.
pub fn byte_reg_addr(base: usize, irq: u32) -> (a: usize)
    requires
        base == GICD_IPRIORITYR || base == GICD_ITARGETSR,
        GICD_BASE + base + (irq / 4) * 4 <= usize::MAX,
    ensures
        a == GICD_BASE + base + (irq / 4) * 4,
{
    GICD_BASE + base + (irq / 4) as usize * 4
}

/// Byte `lane` (0..3) of `v`.
pub open spec fn byte_lane(v: u32, lane: u32) -> u32 {
    (v >> (8 * lane)) & 0xff
}

/// `cur` with the byte lane of `irq` replaced by `byte`.
pub fn set_byte_lane(cur: u32, irq: u32, byte: u32) -> (r: u32)
    requires
        byte <= 0xff,
    ensures
        byte_lane(r, irq % 4) == byte,
        forall|l: u32| l < 4 && l != irq % 4 ==> byte_lane(r, l) == byte_lane(cur, l),
{
    let shift = (irq % 4) * 8;
    let r = (cur & !(0xffu32 << shift)) | (byte << shift);
    let lane = irq % 4;
    assert(byte_lane(r, lane) == byte) by (bit_vector)
        requires
            lane < 4,
            byte <= 0xff,
            r == (cur & !(0xffu32 << (8 * lane))) | (byte << (8 * lane)),
    ;
    assert forall|l: u32| l < 4 && l != lane implies byte_lane(r, l) == byte_lane(cur, l) by {
        assert(byte_lane(r, l) == byte_lane(cur, l)) by (bit_vector)
            requires
                lane < 4,
                l < 4,
                l != lane,
                byte <= 0xff,
                r == (cur & !(0xffu32 << (8 * lane))) | (byte << (8 * lane)),
        ;
    }
    r
}

/// `cur` with the priority of `irq` set to `IRQ_PRIORITY`.
pub fn priority_update(cur: u32, irq: u32) -> (r: u32)
    ensures
        byte_lane(r, irq % 4) == IRQ_PRIORITY,
        forall|l: u32| l < 4 && l != irq % 4 ==> byte_lane(r, l) == byte_lane(cur, l),
{
    set_byte_lane(cur, irq, 0xa0)
}

/// `cur` with the target of `irq` set to CPU 0 (mask 0x01).
pub fn target_update(cur: u32, irq: u32) -> (r: u32)
    ensures
        byte_lane(r, irq % 4) == 0x01,
        forall|l: u32| l < 4 && l != irq % 4 ==> byte_lane(r, l) == byte_lane(cur, l),
{
    set_byte_lane(cur, irq, 0x01)
}

/// Whether `irq` is a shared peripheral interrupt, which needs a target CPU.
pub fn needs_target(irq: u32) -> (b: bool)
    ensures
        b == (irq >= 32),
{
    irq >= 32
}

/// What the acknowledged interrupt asks for.
#[derive(Clone, Copy, PartialEq, Eq, Structural, Debug)]
pub enum IrqAction {
    /// Nothing pending; no end of interrupt is signalled.
    Spurious,
    /// The timer fired.
    Timer,
    /// An interrupt nobody expects.
    Unexpected(u32),
}

/// The interrupt number in an acknowledge-register value.
pub open spec fn iar_irq(iar: u32) -> u32 {
    iar & 0x3ff
}

/// What the acknowledge-register value `iar` asks for: the spurious number 1023 asks for
/// nothing, `timer_irq` is the timer, any other number is unexpected.
pub open spec fn irq_action_spec(iar: u32, timer_irq: u32) -> IrqAction {
    if iar_irq(iar) == SPURIOUS_IRQ {
        IrqAction::Spurious
    } else if iar_irq(iar) == timer_irq {
        IrqAction::Timer
    } else {
        IrqAction::Unexpected(iar_irq(iar))
    }
}

/// Decodes the acknowledge-register value `iar`.
pub fn irq_action(iar: u32, timer_irq: u32) -> (a: IrqAction)
    ensures
        a == irq_action_spec(iar, timer_irq),
{
    let irq = iar & 0x3ff;
    if irq == SPURIOUS_IRQ {
        return IrqAction::Spurious;
    }
    if irq == timer_irq {
        IrqAction::Timer
    } else {
        IrqAction::Unexpected(irq)
    }
}

/// Replacing a byte lane twice keeps only the second byte, and the other lanes are never
/// touched.
pub proof fn law_lane_updates_independent(cur: u32, irq: u32, b1: u32, b2: u32, r1: u32, r2: u32)
    requires
        b1 <= 0xff,
        b2 <= 0xff,
        byte_lane(r1, irq % 4) == b1,
        forall|l: u32| l < 4 && l != irq % 4 ==> byte_lane(r1, l) == byte_lane(cur, l),
        byte_lane(r2, irq % 4) == b2,
        forall|l: u32| l < 4 && l != irq % 4 ==> byte_lane(r2, l) == byte_lane(r1, l),
    ensures
        r2 == set_lane_value(cur, irq % 4, b2),
{
    let lane = irq % 4;
    assert forall|l: u32| l < 4 implies byte_lane(r2, l) == byte_lane(set_lane_value(cur, lane, b2), l) by {
        lemma_set_lane_value(cur, lane, b2, l);
    }
    lemma_lanes_determine(r2, set_lane_value(cur, lane, b2));
}

/// `cur` with byte lane `lane` replaced by `byte`, as a formula.
pub open spec fn set_lane_value(cur: u32, lane: u32, byte: u32) -> u32 {
    (cur & !(0xffu32 << (8 * lane))) | (byte << (8 * lane))
}

/// The formula replaces lane `lane` and keeps the other lanes.
proof fn lemma_set_lane_value(cur: u32, lane: u32, byte: u32, l: u32)
    requires
        lane < 4,
        l < 4,
        byte <= 0xff,
    ensures
        byte_lane(set_lane_value(cur, lane, byte), l) == if l == lane { byte } else { byte_lane(cur, l) },
{
    let r = set_lane_value(cur, lane, byte);
    if l == lane {
        assert(byte_lane(r, l) == byte) by (bit_vector)
            requires
                lane < 4,
                l == lane,
                byte <= 0xff,
                r == (cur & !(0xffu32 << (8 * lane))) | (byte << (8 * lane)),
        ;
    } else {
        assert(byte_lane(r, l) == byte_lane(cur, l)) by (bit_vector)
            requires
                lane < 4,
                l < 4,
                l != lane,
                byte <= 0xff,
                r == (cur & !(0xffu32 << (8 * lane))) | (byte << (8 * lane)),
        ;
    }
}

/// A word is determined by its four byte lanes.
proof fn lemma_lanes_determine(a: u32, b: u32)
    requires
        forall|l: u32| l < 4 ==> byte_lane(a, l) == byte_lane(b, l),
    ensures
        a == b,
{
    assert(byte_lane(a, 0) == byte_lane(b, 0));
    assert(byte_lane(a, 1) == byte_lane(b, 1));
    assert(byte_lane(a, 2) == byte_lane(b, 2));
    assert(byte_lane(a, 3) == byte_lane(b, 3));
    assert(a == b) by (bit_vector)
        requires
            (a >> 0u32) & 0xff == (b >> 0u32) & 0xff,
            (a >> 8u32) & 0xff == (b >> 8u32) & 0xff,
            (a >> 16u32) & 0xff == (b >> 16u32) & 0xff,
            (a >> 24u32) & 0xff == (b >> 24u32) & 0xff,
    ;
}

} // verus!
