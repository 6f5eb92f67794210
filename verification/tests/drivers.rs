use zaminos::arch::exceptions::exception_class;
use zaminos::arch::mmu::{attr_idx, build_block, l1_table, AF, L1_ENTRIES, MAIR_DEVICE, MAIR_NORMAL, SH_INNER, VALID};
use zaminos::drivers::fw_cfg::{
    dma_poll, dma_write_control, name_matches, parse_file_entry, DmaPoll, DMA_MAX_SPINS,
};
use zaminos::drivers::gicv2::{
    byte_reg_addr, irq_action, isenabler, needs_target, priority_update, set_byte_lane,
    target_update, IrqAction, GICD_IPRIORITYR, GICD_ITARGETSR,
};
use zaminos::drivers::input::keycode_to_char;
use zaminos::drivers::ramfb::{build_cfg, FB_HEIGHT, FB_STRIDE, FB_WIDTH};
use zaminos::drivers::timer::{interval_ticks, next_tick, TIMER_IRQ};
use zaminos::drivers::uart_pl011::{tx_bytes, Pl011Uart};

#[test]
fn keycodes_map_to_lower_case_us_layout() {
    assert_eq!(keycode_to_char(2), Some('1'));
    assert_eq!(keycode_to_char(11), Some('0'));
    assert_eq!(keycode_to_char(16), Some('q'));
    assert_eq!(keycode_to_char(30), Some('a'));
    assert_eq!(keycode_to_char(50), Some('m'));
    assert_eq!(keycode_to_char(57), Some(' '));
    assert_eq!(keycode_to_char(14), Some('\x08'));
    assert_eq!(keycode_to_char(28), Some('\n'));
    assert_eq!(keycode_to_char(1), None);
    assert_eq!(keycode_to_char(12), None);
    assert_eq!(keycode_to_char(59), None);
}

#[test]
fn ramfb_config_is_big_endian() {
    let cfg = build_cfg(0x1_2345_6789, FB_WIDTH, FB_HEIGHT, FB_STRIDE);
    assert_eq!(
        cfg,
        [
            0x00, 0x00, 0x00, 0x01, 0x23, 0x45, 0x67, 0x89, // address
            0x34, 0x32, 0x52, 0x58, // XRGB8888
            0x00, 0x00, 0x00, 0x00, // flags
            0x00, 0x00, 0x03, 0x20, // 800
            0x00, 0x00, 0x02, 0x58, // 600
            0x00, 0x00, 0x0c, 0x80, // 3200
        ]
    );
}

#[test]
fn ramfb_config_round_trips() {
    let cfg = build_cfg(0xdead_beef_cafe_f00d, 1, 2, 3);
    let word = |i: usize| u32::from_be_bytes([cfg[i], cfg[i + 1], cfg[i + 2], cfg[i + 3]]);
    assert_eq!(((word(0) as u64) << 32) | word(4) as u64, 0xdead_beef_cafe_f00d);
    assert_eq!(word(8), 0x3432_5258);
    assert_eq!(word(12), 0);
    assert_eq!(word(16), 1);
    assert_eq!(word(20), 2);
    assert_eq!(word(24), 3);
}

fn entry_bytes(size: u32, select: u16, name: &[u8]) -> [u8; 64] {
    let mut raw = [0u8; 64];
    raw[0..4].copy_from_slice(&size.to_be_bytes());
    raw[4..6].copy_from_slice(&select.to_be_bytes());
    raw[6] = 0xaa;
    raw[7] = 0xbb;
    raw[8..8 + name.len()].copy_from_slice(name);
    raw
}

#[test]
fn fw_cfg_entry_is_parsed_big_endian() {
    let raw = entry_bytes(28, 0x25, b"etc/ramfb");
    let e = parse_file_entry(&raw);
    assert_eq!(e.size, 28);
    assert_eq!(e.select, 0x25);
    assert_eq!(e._reserved, 0);
    assert_eq!(&e.name[..9], b"etc/ramfb");
    assert!(e.name[9..].iter().all(|&b| b == 0));
    let e = parse_file_entry(&entry_bytes(0x0102_0304, 0xbeef, b""));
    assert_eq!(e.size, 0x0102_0304);
    assert_eq!(e.select, 0xbeef);
}

#[test]
fn fw_cfg_name_matches_up_to_nul() {
    let e = parse_file_entry(&entry_bytes(28, 0x25, b"etc/ramfb"));
    assert!(name_matches(&e, "etc/ramfb"));
    assert!(!name_matches(&e, "etc/ramf"));
    assert!(!name_matches(&e, "etc/ramfbx"));
    assert!(!name_matches(&e, "etc/ramfc"));
    assert!(!name_matches(&e, ""));
}

#[test]
fn fw_cfg_name_without_nul_uses_all_56_bytes() {
    let name = [b'x'; 56];
    let e = parse_file_entry(&entry_bytes(1, 1, &name));
    let full: String = std::iter::repeat('x').take(56).collect();
    assert!(name_matches(&e, &full));
    assert!(!name_matches(&e, &full[..55]));
    let empty = parse_file_entry(&entry_bytes(1, 1, b""));
    assert!(name_matches(&empty, ""));
}

#[test]
fn dma_write_control_word() {
    assert_eq!(dma_write_control(0x25), 0x0025_0018);
    assert_eq!(dma_write_control(0), 0x18);
    assert_eq!(dma_write_control(0xffff), 0xffff_0018);
}

#[test]
fn dma_poll_decisions() {
    assert_eq!(dma_poll(0, 5), DmaPoll::Done);
    assert_eq!(dma_poll(1, 5), DmaPoll::Failed(1));
    assert_eq!(dma_poll(0x0b, 0), DmaPoll::Failed(0x0b));
    assert_eq!(dma_poll(0x12, 5), DmaPoll::Wait(6));
    assert_eq!(dma_poll(0x12, DMA_MAX_SPINS - 1), DmaPoll::Wait(DMA_MAX_SPINS));
    assert_eq!(dma_poll(0x12, DMA_MAX_SPINS), DmaPoll::Failed(0x12));
}

#[test]
fn dma_poll_gives_up_after_max_spins() {
    let mut spins = 0u32;
    let mut polls = 0u64;
    loop {
        polls += 1;
        match dma_poll(0x10, spins) {
            DmaPoll::Wait(n) => spins = n,
            other => {
                assert_eq!(other, DmaPoll::Failed(0x10));
                break;
            }
        }
    }
    assert_eq!(polls, DMA_MAX_SPINS as u64 + 1);
}

#[test]
fn gic_enable_register_and_bit() {
    assert_eq!(isenabler(30), (0x0800_0100, 1 << 30));
    assert_eq!(isenabler(33), (0x0800_0104, 1 << 1));
    assert_eq!(isenabler(0), (0x0800_0100, 1));
}

#[test]
fn gic_byte_register_addresses() {
    assert_eq!(byte_reg_addr(GICD_IPRIORITYR, 30), 0x0800_041c);
    assert_eq!(byte_reg_addr(GICD_ITARGETSR, 33), 0x0800_0820);
}

#[test]
fn gic_byte_lanes() {
    assert_eq!(set_byte_lane(0xaabb_ccdd, 1, 0x11), 0xaabb_11dd);
    assert_eq!(set_byte_lane(0xaabb_ccdd, 7, 0x00), 0x00bb_ccdd);
    assert_eq!(priority_update(0, TIMER_IRQ), 0x00a0_0000);
    assert_eq!(priority_update(0xffff_ffff, 4), 0xffff_ffa0);
    assert_eq!(target_update(0xffff_ffff, 33), 0xffff_01ff);
}

#[test]
fn gic_lane_rewrite_keeps_only_second_byte() {
    let once = set_byte_lane(0x1234_5678, 2, 0x99);
    let twice = set_byte_lane(once, 2, 0x42);
    assert_eq!(twice, set_byte_lane(0x1234_5678, 2, 0x42));
    assert_eq!(twice, 0x1242_5678);
}

#[test]
fn gic_targets_only_shared_interrupts() {
    assert!(!needs_target(30));
    assert!(!needs_target(31));
    assert!(needs_target(32));
    assert!(needs_target(48));
}

#[test]
fn gic_irq_actions() {
    assert_eq!(irq_action(1023, TIMER_IRQ), IrqAction::Spurious);
    assert_eq!(irq_action(0x7ff, TIMER_IRQ), IrqAction::Spurious);
    assert_eq!(irq_action(30, TIMER_IRQ), IrqAction::Timer);
    assert_eq!(irq_action(0x41e, TIMER_IRQ), IrqAction::Timer);
    assert_eq!(irq_action(33, TIMER_IRQ), IrqAction::Unexpected(33));
    assert_eq!(irq_action(0x400, TIMER_IRQ), IrqAction::Unexpected(0));
}

#[test]
fn timer_arithmetic() {
    assert_eq!(TIMER_IRQ, 30);
    assert_eq!(interval_ticks(62_500_000, 10), 625_000);
    assert_eq!(interval_ticks(1000, 1), 1);
    assert_eq!(interval_ticks(999, 1), 0);
    assert_eq!(next_tick(5), 6);
}

#[test]
fn uart_adds_carriage_returns() {
    let _uart = Pl011Uart::new();
    assert_eq!(tx_bytes("a\nb"), vec![b'a', b'\r', b'\n', b'b']);
    assert_eq!(tx_bytes("\n\n"), vec![b'\r', b'\n', b'\r', b'\n']);
    assert_eq!(tx_bytes("ok"), b"ok".to_vec());
    assert_eq!(tx_bytes(""), Vec::<u8>::new());
}

#[test]
fn mmu_block_descriptors() {
    assert_eq!(attr_idx(0), 0);
    assert_eq!(attr_idx(7), 28);
    assert_eq!(build_block(0x4000_0000, MAIR_NORMAL), 0x4000_0705);
    assert_eq!(build_block(0, MAIR_DEVICE), 0x701);
    let d = build_block(0x80_0000_0000, 3);
    assert_eq!(d & VALID, 1);
    assert_eq!(d & 2, 0);
    assert_eq!((d >> 2) & 7, 3);
    assert_eq!(d & SH_INNER, SH_INNER);
    assert_eq!(d & AF, AF);
    assert_eq!(d & 0xff_c000_0000, 0x80_0000_0000);
}

#[test]
fn exception_class_field() {
    assert_eq!(exception_class(0x5600_0000), 0x15);
    assert_eq!(exception_class(0x9600_0045), 0x25);
    assert_eq!(exception_class(0xffff_ffff_ffff_ffff), 0x3f);
    assert_eq!(exception_class(0x03ff_ffff), 0);
}

#[test]
fn mmu_identity_maps_first_four_gigabytes() {
    let t = l1_table();
    assert_eq!(t.len(), L1_ENTRIES);
    assert_eq!(t[0], 0x0000_0701);
    assert_eq!(t[1], 0x4000_0705);
    assert_eq!(t[2], 0x8000_0705);
    assert_eq!(t[3], 0xc000_0705);
    assert!(t[4..].iter().all(|&e| e == 0));
    for pa in [0u64, 0x0900_0000, 0x4000_0000, 0x7fff_ffff, 0xc123_4567, 0xffff_ffff] {
        let d = t[(pa >> 30) as usize];
        assert_eq!(d & 1, 1);
        assert_eq!(d & 0xff_c000_0000, pa & !0x3fff_ffff);
        assert_eq!((d >> 2) & 7, if pa < 0x4000_0000 { MAIR_DEVICE } else { MAIR_NORMAL });
    }
}
