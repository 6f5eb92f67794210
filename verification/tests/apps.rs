use zaminos::drivers::input::{EV_KEY, EV_REL, REL_X};
use zaminos::graphics::framebuffer::{Color, Framebuffer};
use zaminos::ui::apps::calculator::{CalcEffect, CalcState, Op};
use zaminos::ui::apps::files::{files, FileKind, FilesState, FILE_COUNT};
use zaminos::ui::apps::music::{tracks, MusicState, TRACK_COUNT};
use zaminos::ui::apps::paint::{palette, PaintState, Stroke, PALETTE_LEN};
use zaminos::ui::apps::settings::SettingsState;
use zaminos::ui::apps::terminal::{TerminalState, MAX_LINES, MAX_LINE_LEN};
use zaminos::ui::apps::clock::{self, clock_time, dial, DialMarks};
use zaminos::ui::apps::{keyboard, paint, sysmon, terminal, welcome, App};
use zaminos::ui::Shell;

const HEAP: (usize, usize, usize) = (65536, 100, 2048);

fn code_of(c: char) -> u16 {
    let keys = "1234567890qwertyuiopasdfghjklzxcvbnm ";
    let codes: [u16; 37] = [
        2, 3, 4, 5, 6, 7, 8, 9, 10, 11, 16, 17, 18, 19, 20, 21, 22, 23, 24, 25, 30, 31, 32, 33,
        34, 35, 36, 37, 38, 44, 45, 46, 47, 48, 49, 50, 57,
    ];
    codes[keys.find(c).unwrap()]
}

fn type_line(t: &mut TerminalState, line: &str) {
    for c in line.chars() {
        assert!(t.handle_key(code_of(c), HEAP));
    }
}

fn run(t: &mut TerminalState, line: &str) {
    type_line(t, line);
    assert!(t.handle_key(28, HEAP));
}

fn history(t: &TerminalState) -> Vec<String> {
    t.history().iter().cloned().collect()
}

fn blank(w: u32, h: u32) -> Framebuffer {
    Framebuffer::new(vec![0u32; (w * h) as usize], w, h)
}

fn px(fb: &Framebuffer, x: u32, y: u32) -> u32 {
    fb.pixels()[(y * fb.width() + x) as usize]
}

#[test]
fn terminal_greets() {
    let t = TerminalState::new();
    assert_eq!(history(&t), vec!["ZaminOS Terminal v0.1", "'help' deb yozing va Enter bosing"]);
    assert_eq!(t.line(), "");
}

#[test]
fn terminal_help() {
    let mut t = TerminalState::new();
    run(&mut t, "help");
    let h = history(&t);
    assert_eq!(h.len(), 11);
    assert_eq!(h[2], "$ help");
    assert_eq!(h[3], "Mavjud buyruqlar:");
    assert_eq!(h[10], "  about       - ZaminOS haqida");
    assert_eq!(t.line(), "");
}

#[test]
fn terminal_echo_joins_words() {
    let mut t = TerminalState::new();
    run(&mut t, "echo  salom   dunyo ");
    let h = history(&t);
    assert_eq!(&h[2..], &["$ echo  salom   dunyo ", "salom dunyo"]);
    run(&mut t, "echo");
    let h = history(&t);
    assert_eq!(&h[4..], &["$ echo", ""]);
}

#[test]
fn terminal_clear_empties_history() {
    let mut t = TerminalState::new();
    run(&mut t, "clear");
    assert!(history(&t).is_empty());
}

#[test]
fn terminal_ps_uname_about() {
    let mut t = TerminalState::new();
    run(&mut t, "ps");
    run(&mut t, "uname");
    run(&mut t, "about");
    let h = history(&t);
    assert_eq!(h.len(), 13);
    assert_eq!(h[3], "PID  STATE   NAME");
    assert_eq!(h[7], "  4  ready    timer-irq");
    assert_eq!(h[8], "$ uname");
    assert_eq!(h[9], "ZaminOS v0.7.0 aarch64 (QEMU virt) Rust nightly");
    assert_eq!(h[10], "$ about");
    assert_eq!(h[11], "ZaminOS - mobile-first konvergent OS");
    assert_eq!(h[12], "aarch64 + Rust + ramfb + virtio-input");
}

#[test]
fn terminal_mem_reports_heap() {
    let mut t = TerminalState::new();
    run(&mut t, "mem");
    let h = history(&t);
    assert_eq!(&h[2..], &["$ mem", "size  : 64 KiB", "used  : 100 bytes", "free  : 2 KiB"]);
}

#[test]
fn terminal_unknown_command() {
    let mut t = TerminalState::new();
    run(&mut t, "  foo bar");
    let h = history(&t);
    assert_eq!(&h[2..], &["$   foo bar", "buyruq topilmadi: foo", "'help' bilan ro'yxat"]);
}

#[test]
fn terminal_blank_line_only_echoes_prompt() {
    let mut t = TerminalState::new();
    run(&mut t, "   ");
    assert_eq!(&history(&t)[2..], &["$    "]);
    assert!(t.handle_key(28, HEAP));
    assert_eq!(&history(&t)[2..], &["$    ", "$ "]);
}

#[test]
fn terminal_history_keeps_newest_sixteen() {
    let mut t = TerminalState::new();
    for _ in 0..3 {
        run(&mut t, "help");
    }
    let h = history(&t);
    assert_eq!(h.len(), MAX_LINES);
    assert_eq!(h[15], "  about       - ZaminOS haqida");
    assert_eq!(h[7], "$ help");
}

#[test]
fn terminal_line_editing() {
    let mut t = TerminalState::new();
    assert!(t.handle_key(14, HEAP));
    assert_eq!(t.line(), "");
    type_line(&mut t, "ab c");
    assert!(t.handle_key(14, HEAP));
    assert_eq!(t.line(), "ab ");
    assert!(!t.handle_key(1, HEAP));
    assert!(!t.handle_key(59, HEAP));
    for _ in 0..100 {
        assert!(t.handle_key(30, HEAP));
    }
    assert_eq!(t.line().chars().count(), MAX_LINE_LEN);
    assert_eq!(history(&t).len(), 2);
}

#[test]
fn files_listing_and_selection() {
    let fs = files();
    assert_eq!(fs.len(), FILE_COUNT);
    assert_eq!((fs[0].name, fs[0].kind, fs[0].size), ("Documents", FileKind::Folder, ""));
    assert_eq!((fs[6].name, fs[6].kind, fs[6].size), ("kernel.elf", FileKind::Code, "162 KB"));
    assert_eq!((fs[9].name, fs[9].kind, fs[9].size), ("notes.txt", FileKind::Doc, "0.8 KB"));

    let mut f = FilesState::new();
    assert!(f.handle_key(37));
    assert_eq!(f.selected, 0);
    for _ in 0..20 {
        assert!(f.handle_key(36));
    }
    assert_eq!(f.selected, FILE_COUNT - 1);
    assert!(f.handle_key(37));
    assert_eq!(f.selected, FILE_COUNT - 2);
    assert!(!f.handle_key(30));
    assert_eq!(f.selected, FILE_COUNT - 2);
}

#[test]
fn music_tracks_and_keys() {
    let ts = tracks();
    assert_eq!(ts.len(), TRACK_COUNT);
    assert_eq!(ts[0], ("ZaminOS Boot Theme", "ZaminOS", 224));
    assert_eq!(ts[3], ("Mobile Convergence", "Faza 7", 256));

    let mut m = MusicState::new();
    assert_eq!(m, MusicState { playing: true, track: 0, progress: 27 });
    assert!(m.handle_key(57));
    assert!(!m.playing);
    assert!(m.handle_key(36));
    assert_eq!((m.track, m.progress), (0, 0));
    for _ in 0..10 {
        assert!(m.handle_key(37));
    }
    assert_eq!(m.track, TRACK_COUNT - 1);
    assert!(m.handle_key(36));
    assert_eq!(m.track, TRACK_COUNT - 2);
    assert!(!m.handle_key(30));
    assert_eq!(m, MusicState { playing: false, track: 2, progress: 0 });
}

#[test]
fn settings_switches_and_levels() {
    let mut s = SettingsState::new();
    assert_eq!(
        s,
        SettingsState {
            dark_mode: true,
            wifi: true,
            bluetooth: false,
            do_not_disturb: false,
            volume: 70,
            brightness: 80
        }
    );
    for code in 2..=5 {
        assert!(s.handle_key(code));
    }
    assert!(!s.dark_mode && !s.wifi && s.bluetooth && s.do_not_disturb);
    for _ in 0..5 {
        assert!(s.handle_key(13));
    }
    assert_eq!(s.volume, 100);
    for _ in 0..12 {
        assert!(s.handle_key(12));
    }
    assert_eq!(s.volume, 0);
    assert!(s.handle_key(27));
    assert!(s.handle_key(27));
    assert_eq!(s.brightness, 100);
    assert!(s.handle_key(26));
    assert_eq!(s.brightness, 90);
    assert!(!s.handle_key(30));
    let mut odd = SettingsState { volume: 95, brightness: 5, ..SettingsState::new() };
    odd.handle_key(13);
    odd.handle_key(26);
    assert_eq!((odd.volume, odd.brightness), (100, 0));
}

fn calc_press(c: &mut CalcState, code: u16) -> (bool, CalcEffect) {
    let used = c.handle_key(code);
    (used, c.take_effect())
}

#[test]
fn calculator_key_set() {
    for code in (2..=11).chain([35, 36, 37, 38, 28, 14, 46]) {
        let mut c = CalcState::new();
        assert!(c.handle_key(code), "code {}", code);
    }
    for code in [1, 12, 15, 30, 34, 39, 57] {
        let mut c = CalcState::new();
        assert!(!c.handle_key(code));
        assert_eq!(c.display(), "0");
        assert_eq!(c.take_effect(), CalcEffect::Keep);
    }
}

#[test]
fn calculator_digits_replace_lone_zero() {
    let mut c = CalcState::new();
    assert_eq!(c.display(), "0");
    assert_eq!(calc_press(&mut c, 11), (true, CalcEffect::Keep)); // 0
    assert_eq!(c.display(), "0");
    calc_press(&mut c, 2); // 1
    calc_press(&mut c, 3); // 2
    calc_press(&mut c, 11); // 0
    assert_eq!(c.display(), "120");
}

#[test]
fn calculator_operators_evaluate_pending() {
    let mut c = CalcState::new();
    calc_press(&mut c, 8); // 7
    assert_eq!(calc_press(&mut c, 36), (true, CalcEffect::Evaluate(None))); // +
    assert_eq!(c.pending(), Some(Op::Add));
    assert_eq!(c.display(), "7");
    calc_press(&mut c, 4); // 3
    assert_eq!(c.display(), "3");
    assert_eq!(calc_press(&mut c, 38), (true, CalcEffect::Evaluate(Some(Op::Add)))); // *
    c.show("10");
    assert_eq!(c.display(), "10");
    assert_eq!(c.pending(), Some(Op::Mul));
    calc_press(&mut c, 3); // 2
    assert_eq!(calc_press(&mut c, 28), (true, CalcEffect::Evaluate(Some(Op::Mul))));
    assert_eq!(c.pending(), None);
    assert_eq!(calc_press(&mut c, 28), (true, CalcEffect::Evaluate(None)));
    assert_eq!(calc_press(&mut c, 35), (true, CalcEffect::Evaluate(None)));
    assert_eq!(calc_press(&mut c, 37), (true, CalcEffect::Evaluate(Some(Op::Div))));
    assert_eq!(c.pending(), Some(Op::Sub));
}

#[test]
fn calculator_backspace_and_clear() {
    let mut c = CalcState::new();
    calc_press(&mut c, 2);
    calc_press(&mut c, 3);
    assert_eq!(calc_press(&mut c, 14), (true, CalcEffect::Keep));
    assert_eq!(c.display(), "1");
    calc_press(&mut c, 14);
    assert_eq!(c.display(), "0");
    // the lone 0 left by backspace starts a new number
    calc_press(&mut c, 5);
    assert_eq!(c.display(), "4");
    calc_press(&mut c, 36);
    // backspace right after an operator shows 0
    calc_press(&mut c, 14);
    assert_eq!(c.display(), "0");
    assert_eq!(calc_press(&mut c, 46), (true, CalcEffect::Reset));
    assert_eq!(c.display(), "0");
    assert_eq!(c.pending(), None);
}

#[test]
fn operator_labels() {
    assert_eq!(Op::Add.label(), "+");
    assert_eq!(Op::Sub.label(), "-");
    assert_eq!(Op::Mul.label(), "*");
    assert_eq!(Op::Div.label(), "/");
}

#[test]
fn paint_state_strokes_and_palette() {
    let p = palette();
    assert_eq!(p.len(), PALETTE_LEN);
    assert_eq!(p[0], Color::rgb(0xfd, 0xc4, 0x35));
    assert_eq!(p[5], Color::white());
    let mut ps = PaintState::new();
    assert_eq!(ps.palette_idx(), 0);
    ps.on_pointer(1, 2, 3, 4);
    assert_eq!(ps.strokes(), &[Stroke { x0: 1, y0: 2, x1: 3, y1: 4, color: p[0].0 }][..]);
    ps.clear();
    assert!(ps.strokes().is_empty());
}

#[test]
fn paint_draw_shows_thick_strokes() {
    let mut s = Shell::new(800, 600);
    s.current_app = App::Paint;
    assert!(s.handle_input(EV_REL, REL_X, 10, HEAP));
    let mut fb = blank(800, 600);
    paint::draw(&s, &mut fb, 0, 0, 800, 600);
    let gold = palette()[0].0;
    assert_eq!(px(&fb, 405, 300), gold);
    assert_eq!(px(&fb, 405, 301), gold);
    assert_eq!(px(&fb, 405, 299), gold);
    assert_eq!(px(&fb, 405, 302), Color::white().0);
    // the active swatch is outlined in white, the swatches follow 28 pixels apart
    assert_eq!(px(&fb, 7, 25), Color::white().0);
    assert_eq!(px(&fb, 8, 26), gold);
    assert_eq!(px(&fb, 36, 26), palette()[1].0);
    // title bar and hint bar
    assert_eq!(px(&fb, 1, 1), Color::rgb(0x14, 0x22, 0x3a).0);
    assert_eq!(px(&fb, 1, 587), Color::rgb(0x14, 0x22, 0x3a).0);
}

#[test]
fn terminal_draw_layout() {
    let mut s = Shell::new(800, 600);
    s.current_app = App::Terminal;
    s.handle_input(EV_KEY, 30, 1, HEAP);
    let mut fb = blank(800, 600);
    terminal::draw(&s, &mut fb, 0, 0, 800, 600);
    assert_eq!(px(&fb, 1, 1), Color::rgb(0x14, 0x22, 0x3a).0);
    assert_eq!(px(&fb, 1, 25), Color::rgb(0x02, 0x06, 0x10).0);
    // prompt bar at the bottom and its caret after "$ a"
    assert_eq!(px(&fb, 1, 585), Color::rgb(0x05, 0x0a, 0x16).0);
    assert_eq!(px(&fb, 6 + 24 + 1, 586), Color::success().0);
    assert_eq!(px(&fb, 6 + 24 + 2, 595), Color::success().0);
}

#[test]
fn welcome_draw_lists_boot_steps() {
    let s = Shell::new(800, 600);
    let mut fb = blank(800, 600);
    welcome::draw(&s, &mut fb, 0, 0, 800, 600);
    // '[' of the first boot line, scale 2 at (30, 170): glyph row 0 is 0x1E
    assert_eq!(px(&fb, 30, 170), 0);
    assert_eq!(px(&fb, 32, 170), Color::success().0);
    assert_eq!(px(&fb, 39, 171), Color::success().0);
    assert_eq!(px(&fb, 40, 170), 0);
}

#[test]
fn keyboard_draw_box_and_keys() {
    let s = Shell::new(800, 600);
    let mut fb = blank(800, 600);
    keyboard::draw(&s, &mut fb, 0, 0, 800, 600);
    assert_eq!(px(&fb, 16, 110), Color::zamin_fg().0);
    assert_eq!(px(&fb, 17, 111), Color::rgb(0x06, 0x0e, 0x1a).0);
    // first key of the first row: 69 pixels wide at (45, 212)
    assert_eq!(px(&fb, 45, 212), Color::muted().0);
    assert_eq!(px(&fb, 46, 213), Color::rgb(0x14, 0x22, 0x3a).0);
    assert_eq!(px(&fb, 44, 212), 0);
}

#[test]
fn sysmon_draw_gauges() {
    let mut s = Shell::new(800, 600);
    s.event_count = 100;
    let mut fb = blank(800, 600);
    sysmon::draw(&s, &mut fb, 0, 0, 800, 600);
    let track = Color::rgb(0x1a, 0x2a, 0x44).0;
    // heap gauge empty, events gauge half full (384 of 768 pixels)
    assert_eq!(px(&fb, 16, 132), track);
    assert_eq!(px(&fb, 16, 168), Color::accent().0);
    assert_eq!(px(&fb, 16 + 383, 168), Color::accent().0);
    assert_eq!(px(&fb, 16 + 384, 168), track);
}

#[test]
fn clock_time_breaks_down_uptime() {
    assert_eq!(clock_time(0), (0, 0, 0));
    assert_eq!(clock_time(3661), (1, 1, 1));
    assert_eq!(clock_time(43200 + 59), (0, 0, 59));
    assert_eq!(clock_time(11 * 3600 + 59 * 60 + 59), (11, 59, 59));
    // the count is read as a signed 32-bit number, as `as i32` does
    for u in [u32::MAX, 0x8000_0000, 0x8000_0001, 0xdead_beef, 0x7fff_ffff, 123_456_789] {
        let t = u as i32;
        assert_eq!(clock_time(u), ((t / 3600) % 12, (t / 60) % 60, t % 60), "uptime {}", u);
    }
}

#[test]
fn clock_dial_geometry() {
    assert_eq!(dial(0, 0, 800, 600), (400, 311, 273));
    assert_eq!(dial(10, 20, 100, 100), (60, 81, 23));
}

fn centred_marks(cx: i32, cy: i32) -> DialMarks {
    DialMarks { ticks: [(cx, cy, cx, cy); 12], hour: (cx, cy), minute: (cx, cy), second: (cx, cy) }
}

#[test]
fn clock_draw_small_area_shows_note() {
    let s = Shell::new(800, 600);
    let mut fb = blank(200, 200);
    clock::draw(&s, &mut fb, 0, 0, 100, 100, &centred_marks(0, 0));
    assert_eq!(px(&fb, 1, 1), Color::rgb(0x14, 0x22, 0x3a).0);
    // no ring: the dial would have radius 23
    assert_eq!(px(&fb, 50 + 23, 61), 0);
    // 'J' of the note at (6, 30)
    assert!((6..14).any(|x| px(&fb, x, 30) == Color::muted().0));
}

#[test]
fn clock_draw_dial_hands_and_readout() {
    let mut s = Shell::new(800, 600);
    s.uptime_ticks = 3 * 3600 + 25 * 60 + 7;
    let (cx, cy, r) = dial(0, 0, 800, 600);
    let mut marks = centred_marks(cx, cy);
    marks.ticks[3] = (cx + r - 6, cy, cx + r - 2, cy);
    marks.minute = (cx, cy - 100);
    marks.second = (cx + 50, cy);
    let mut fb = blank(800, 600);
    clock::draw(&s, &mut fb, 0, 0, 800, 600, &marks);
    let (cx, cy, r) = (cx as u32, cy as u32, r as u32);
    assert_eq!(px(&fb, cx + r, cy), Color::zamin_fg().0);
    assert_eq!(px(&fb, cx + r - 1, cy), Color::zamin_fg().0);
    assert_eq!(px(&fb, cx, cy - r), Color::zamin_fg().0);
    assert_eq!(px(&fb, cx - 2, cy + 2), Color::zamin_fg().0);
    assert_eq!(px(&fb, cx + r - 4, cy), Color::muted().0);
    assert_eq!(px(&fb, cx + 1, cy - 50), Color::white().0);
    assert_eq!(px(&fb, cx + 30, cy), Color::accent().0);
    assert_eq!(px(&fb, cx + 30, cy + 1), 0);
    // "03:25:07" centred at the bottom: 8 characters from x = 400 - 32
    let mut want = blank(800, 600);
    want.draw_text(368, 582, "03:25:07", Color::accent(), 1);
    let mut lit = 0;
    for y in 582..590 {
        for x in 368..432 {
            if px(&want, x, y) != 0 {
                lit += 1;
                assert_eq!(px(&fb, x, y), Color::accent().0, "pixel ({}, {})", x, y);
            }
        }
    }
    assert!(lit > 40);
}
