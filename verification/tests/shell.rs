use zaminos::drivers::input::{ABS_X, ABS_Y, EV_ABS, EV_KEY, EV_REL, EV_SYN, REL_X, REL_Y};
use zaminos::graphics::framebuffer::{Color, Framebuffer};
use zaminos::ui::apps::paint::{palette, Stroke};
use zaminos::ui::apps::calculator::CalcEffect;
use zaminos::ui::apps::App;
use zaminos::ui::{
    draw_app_icon, draw_battery_icon, draw_round_gradient, draw_wifi_icon, icon_pattern, isqrt, DesktopView, Layout,
    MobileView, Shell, MAX_TYPED,
};

const HEAP: (usize, usize, usize) = (4 * 1024 * 1024, 1000, 4 * 1024 * 1024 - 1000);

const ESC: u16 = 1;
const TAB: u16 = 15;
const ENTER: u16 = 28;
const F1: u16 = 59;
const F2: u16 = 60;
const BACKSPACE: u16 = 14;

fn press(s: &mut Shell, code: u16) -> bool {
    s.handle_input(EV_KEY, code, 1, HEAP)
}

fn blank(w: u32, h: u32) -> Framebuffer {
    Framebuffer::new(vec![0u32; (w * h) as usize], w, h)
}

fn px(fb: &Framebuffer, x: u32, y: u32) -> u32 {
    fb.pixels()[(y * fb.width() + x) as usize]
}

#[test]
fn new_shell_state() {
    let s = Shell::new(800, 600);
    assert_eq!(s.layout, Layout::Desktop);
    assert_eq!(s.mobile_view, MobileView::Lock);
    assert_eq!(s.desktop_view, DesktopView::Desktop);
    assert_eq!(s.current_app, App::Welcome);
    assert_eq!((s.uptime_ticks, s.event_count), (0, 0));
    assert_eq!(s.typed, "");
    assert_eq!((s.cursor_x, s.cursor_y), (400, 300));
    assert_eq!((s.heap_used, s.heap_size), (0, 0));
    assert_eq!(s.files.selected, 0);
    assert!(s.music.playing);
    assert_eq!(s.settings.volume, 70);
    assert!(s.paint.strokes().is_empty());
    assert_eq!(s.terminal.line(), "");
    assert_eq!(s.terminal.history().len(), 2);
}

#[test]
fn layout_toggle() {
    assert_eq!(Layout::Desktop.toggle(), Layout::Mobile);
    assert_eq!(Layout::Mobile.toggle(), Layout::Desktop);
}

#[test]
fn escape_switches_layout_and_locks_phone() {
    let mut s = Shell::new(800, 600);
    s.mobile_view = MobileView::InApp;
    assert!(press(&mut s, ESC));
    assert_eq!(s.layout, Layout::Mobile);
    assert_eq!(s.mobile_view, MobileView::Lock);
    assert!(press(&mut s, ESC));
    assert_eq!(s.layout, Layout::Desktop);
    assert_eq!(s.mobile_view, MobileView::Lock);
    assert_eq!(s.event_count, 2);
}

#[test]
fn escape_twice_restores_layout() {
    let mut s = Shell::new(800, 600);
    s.layout = Layout::Mobile;
    s.mobile_view = MobileView::Home;
    press(&mut s, ESC);
    press(&mut s, ESC);
    assert_eq!(s.layout, Layout::Mobile);
    assert_eq!(s.mobile_view, MobileView::Lock);
}

#[test]
fn any_key_unlocks_phone() {
    let mut s = Shell::new(800, 600);
    press(&mut s, ESC);
    assert!(press(&mut s, 30));
    assert_eq!(s.mobile_view, MobileView::Home);
    assert_eq!(s.typed, "");
}

#[test]
fn phone_home_drawer_and_launch() {
    let mut s = Shell::new(800, 600);
    press(&mut s, ESC);
    press(&mut s, ENTER);
    assert_eq!(s.mobile_view, MobileView::Home);
    assert!(press(&mut s, F2));
    assert_eq!(s.mobile_view, MobileView::AppDrawer);
    assert!(press(&mut s, TAB));
    assert_eq!(s.current_app, App::SysMon);
    assert!(!press(&mut s, 30));
    assert_eq!(s.typed, "");
    assert!(press(&mut s, ENTER));
    assert_eq!(s.mobile_view, MobileView::InApp);
    assert!(press(&mut s, F1));
    assert_eq!(s.mobile_view, MobileView::Home);
}

#[test]
fn desktop_start_menu() {
    let mut s = Shell::new(800, 600);
    assert!(press(&mut s, F2));
    assert_eq!(s.desktop_view, DesktopView::StartMenu);
    assert!(press(&mut s, TAB));
    assert_eq!(s.current_app, App::SysMon);
    assert!(!press(&mut s, 30));
    assert!(press(&mut s, ENTER));
    assert_eq!(s.desktop_view, DesktopView::Desktop);
    assert!(press(&mut s, F2));
    assert!(press(&mut s, F2));
    assert_eq!(s.desktop_view, DesktopView::Desktop);
    // F1 does nothing on the desktop and is no character
    assert!(!press(&mut s, F1));
}

#[test]
fn tab_cycles_through_every_app() {
    let mut s = Shell::new(800, 600);
    let mut seen = vec![s.current_app];
    for _ in 0..10 {
        assert!(press(&mut s, TAB));
        seen.push(s.current_app);
    }
    assert_eq!(&seen[..10], &App::all()[..]);
    assert_eq!(seen[10], App::Welcome);
}

#[test]
fn typing_backspace_and_limit() {
    let mut s = Shell::new(800, 600);
    assert!(press(&mut s, 35)); // h
    assert!(press(&mut s, 23)); // i
    assert!(press(&mut s, 57)); // space
    assert_eq!(s.typed, "hi ");
    assert!(press(&mut s, BACKSPACE));
    assert_eq!(s.typed, "hi");
    for _ in 0..100 {
        press(&mut s, 30);
    }
    assert_eq!(s.typed.len(), MAX_TYPED);
    let mut empty = Shell::new(800, 600);
    assert!(press(&mut empty, BACKSPACE));
    assert_eq!(empty.typed, "");
}

#[test]
fn unknown_keys_and_releases() {
    let mut s = Shell::new(800, 600);
    assert!(!press(&mut s, 99));
    assert_eq!(s.event_count, 1);
    assert!(!s.handle_input(EV_KEY, 30, 0, HEAP));
    assert!(!s.handle_input(EV_KEY, 30, 2, HEAP));
    assert!(!s.handle_input(EV_SYN, 0, 0, HEAP));
    assert!(!s.handle_input(0x11, 0, 0, HEAP));
    assert_eq!(s.event_count, 1);
    assert_eq!(s.typed, "");
}

#[test]
fn events_are_counted() {
    let mut s = Shell::new(800, 600);
    press(&mut s, 30);
    s.handle_input(EV_KEY, 30, 0, HEAP);
    s.handle_input(EV_REL, REL_X, 3, HEAP);
    s.handle_input(EV_ABS, ABS_Y, 0, HEAP);
    assert!(!s.handle_input(EV_REL, 8, 1, HEAP));
    assert!(!s.handle_input(EV_ABS, 5, 1, HEAP));
    assert_eq!(s.event_count, 5);
}

#[test]
fn absolute_pointer_maps_to_screen() {
    let mut s = Shell::new(800, 600);
    assert!(s.handle_input(EV_ABS, ABS_X, 16384, HEAP));
    assert!(s.handle_input(EV_ABS, ABS_Y, 32767, HEAP));
    assert_eq!((s.cursor_x, s.cursor_y), (400, 599));
    s.handle_input(EV_ABS, ABS_X, 0, HEAP);
    assert_eq!(s.cursor_x, 0);
}

#[test]
fn relative_pointer_is_clamped() {
    let mut s = Shell::new(800, 600);
    assert!(s.handle_input(EV_REL, REL_X, (-1000i32) as u32, HEAP));
    assert!(s.handle_input(EV_REL, REL_Y, 5000, HEAP));
    assert_eq!((s.cursor_x, s.cursor_y), (0, 599));
    s.handle_input(EV_REL, REL_X, 10, HEAP);
    s.handle_input(EV_REL, REL_Y, (-9i32) as u32, HEAP);
    assert_eq!((s.cursor_x, s.cursor_y), (10, 590));
}

#[test]
fn paint_records_pointer_moves() {
    let mut s = Shell::new(800, 600);
    s.handle_input(EV_REL, REL_X, 5, HEAP);
    assert!(s.paint.strokes().is_empty());
    s.current_app = App::Paint;
    s.handle_input(EV_REL, REL_X, 10, HEAP);
    s.handle_input(EV_ABS, ABS_Y, 0, HEAP);
    let gold = palette()[0].0;
    assert_eq!(
        s.paint.strokes(),
        &[
            Stroke { x0: 405, y0: 300, x1: 415, y1: 300, color: gold },
            Stroke { x0: 415, y0: 300, x1: 415, y1: 0, color: gold },
        ][..]
    );
}

#[test]
fn apps_see_keys_first() {
    let mut s = Shell::new(800, 600);
    s.current_app = App::Files;
    assert!(press(&mut s, 36)); // j
    assert_eq!(s.files.selected, 1);
    assert_eq!(s.typed, "");
    assert!(press(&mut s, 30)); // a: not a files key, typed instead
    assert_eq!(s.typed, "a");

    s.current_app = App::Settings;
    assert!(press(&mut s, 2));
    assert!(!s.settings.dark_mode);
    assert_eq!(s.typed, "a");

    s.current_app = App::Music;
    assert!(press(&mut s, 57));
    assert!(!s.music.playing);
    assert_eq!(s.typed, "a");

    s.current_app = App::Terminal;
    assert!(press(&mut s, 48)); // b
    assert_eq!(s.terminal.line(), "b");
    assert_eq!(s.typed, "a");
}

#[test]
fn calculator_takes_its_keys() {
    let mut s = Shell::new(800, 600);
    s.current_app = App::Calculator;
    assert_eq!(s.calculator.display(), "0");
    assert!(press(&mut s, 3)); // 2
    assert!(press(&mut s, 36)); // +
    assert_eq!(s.typed, "");
    assert_eq!(s.calculator.display(), "2");
    assert_eq!(s.calculator.take_effect(), CalcEffect::Evaluate(None));
    assert!(press(&mut s, 30)); // 'a' is no calculator key
    assert_eq!(s.typed, "a");
    assert_eq!(s.calculator.take_effect(), CalcEffect::Keep);
    s.desktop_view = DesktopView::StartMenu;
    assert!(!press(&mut s, 4));
    assert_eq!(s.calculator.display(), "2");
}

#[test]
fn integer_square_root() {
    assert_eq!(isqrt(0), 0);
    assert_eq!(isqrt(1), 1);
    assert_eq!(isqrt(15), 3);
    assert_eq!(isqrt(16), 4);
    assert_eq!(isqrt(17), 4);
    assert_eq!(isqrt(u32::MAX - 1), 65535);
    for n in 0..2000u32 {
        let r = isqrt(n);
        assert!(r * r <= n && n < (r + 1) * (r + 1));
    }
}

#[test]
fn app_cycle_labels_and_badges() {
    let all = App::all();
    assert_eq!(all.len(), 10);
    for (i, a) in all.iter().enumerate() {
        assert_eq!(a.next(), all[(i + 1) % 10]);
    }
    assert_eq!(App::Settings.next(), App::Welcome);
    assert_eq!(App::Terminal.label(), "Terminal");
    assert_eq!(App::SysMon.label(), "SysMon");
    assert_eq!(App::Terminal.icon(), ">");
    assert_eq!(App::Welcome.icon(), "Z");
}

#[test]
fn icon_patterns_are_msb_left() {
    assert_eq!(icon_pattern(App::Terminal)[0], 0xff);
    let mut fb = blank(8, 8);
    draw_app_icon(&mut fb, App::Terminal, 0, 0, Color(1), 1);
    for x in 0..8 {
        assert_eq!(px(&fb, x, 0), 1);
        assert_eq!(px(&fb, x, 1), if x == 0 || x == 7 { 1 } else { 0 });
    }
    // row 2 of the terminal pictogram is 10110001
    let row2: Vec<u32> = (0..8).map(|x| px(&fb, x, 2)).collect();
    assert_eq!(row2, vec![1, 0, 1, 1, 0, 0, 0, 1]);
    let mut big = blank(16, 16);
    draw_app_icon(&mut big, App::Terminal, 0, 0, Color(1), 2);
    assert_eq!(px(&big, 3, 3), 0);
    assert_eq!(px(&big, 1, 3), 1);
}

#[test]
fn status_icons() {
    let mut fb = blank(24, 10);
    draw_wifi_icon(&mut fb, 0, 0);
    assert_eq!(px(&fb, 0, 0), Color::white().0);
    assert_eq!(px(&fb, 13, 0), Color::white().0);
    assert_eq!(px(&fb, 6, 8), Color::white().0);
    assert_eq!(px(&fb, 0, 1), 0);
    let mut fb = blank(24, 10);
    draw_battery_icon(&mut fb, 0, 0);
    assert_eq!(px(&fb, 0, 1), Color::white().0);
    assert_eq!(px(&fb, 2, 3), Color::success().0);
    assert_eq!(px(&fb, 18, 3), 0);
    assert_eq!(px(&fb, 23, 3), Color::white().0);
    assert_eq!(px(&fb, 0, 0), 0);
}

#[test]
fn frame_box_draws_border_only() {
    let s = Shell::new(800, 600);
    let mut fb = blank(5, 5);
    s.frame_box(&mut fb, 0, 0, 5, 5, Color(1));
    for y in 0..5 {
        for x in 0..5 {
            let edge = x == 0 || y == 0 || x == 4 || y == 4;
            assert_eq!(px(&fb, x, y), if edge { 1 } else { 0 });
        }
    }
}

#[test]
fn round_gradient_rows_and_corners() {
    let mut fb = Framebuffer::new(vec![1u32; 100], 10, 10);
    let (top, bottom) = (Color::rgb(0x10, 0x20, 0x30), Color::rgb(0xf0, 0x80, 0x00));
    draw_round_gradient(&mut fb, 0, 0, 10, 10, 3, top, bottom);
    let insets = [3u32, 1, 1, 0, 0, 0, 0, 1, 1, 3];
    for j in 0..10u32 {
        let t = j as i32;
        let lerp = |a: i32, b: i32| (a + (b - a) * t / 9) as u32;
        let c = (lerp(0x10, 0xf0) << 16) | (lerp(0x20, 0x80) << 8) | lerp(0x30, 0x00);
        let off = insets[j as usize];
        for x in 0..10u32 {
            let inside = off <= x && x < 10 - off;
            assert_eq!(px(&fb, x, j), if inside { c } else { 1 }, "pixel ({}, {})", x, j);
        }
    }
    // the blue channel falls with truncation towards zero: 48 - 48 / 9 on row 1
    assert_eq!(px(&fb, 5, 1) & 0xff, 43);
}

#[test]
fn round_gradient_skips_rows_inset_past_half() {
    let mut fb = Framebuffer::new(vec![1u32; 5 * 12], 5, 12);
    draw_round_gradient(&mut fb, 0, 0, 5, 12, 2, Color(0), Color(0));
    // row 0: inset 2 reaches half of 5 (2), so it stays untouched
    assert!((0..5).all(|x| px(&fb, x, 0) == 1));
    assert_eq!(px(&fb, 2, 1), 0);
    assert_eq!(px(&fb, 0, 1), 1);
    assert!((0..5).all(|x| px(&fb, x, 5) == 0));
}

#[test]
fn app_bounds_only_matter_for_their_keys() {
    let mut s = Shell::new(800, 600);
    s.files.selected = usize::MAX;
    s.music.track = usize::MAX;
    s.settings.volume = u32::MAX;
    assert!(s.input_fits(EV_KEY, ESC, 1));
    assert!(press(&mut s, ESC));
    assert_eq!(s.layout, Layout::Mobile);
    assert!(s.input_fits(EV_REL, REL_X, 5));
    assert!(s.handle_input(EV_REL, REL_X, 5, HEAP));
    s.layout = Layout::Desktop;
    s.current_app = App::Files;
    assert!(!s.input_fits(EV_KEY, 36, 1));
    assert!(s.input_fits(EV_KEY, 37, 1));
    assert!(s.input_fits(EV_KEY, 36, 0));
    s.current_app = App::Music;
    assert!(!s.input_fits(EV_KEY, 37, 1));
    s.current_app = App::Settings;
    assert!(!s.input_fits(EV_KEY, 13, 1));
    assert!(s.input_fits(EV_KEY, 27, 1));
    s.desktop_view = DesktopView::StartMenu;
    assert!(s.input_fits(EV_KEY, 13, 1));
    s.event_count = u32::MAX;
    assert!(!s.input_fits(EV_KEY, 30, 1));
    assert!(s.input_fits(EV_KEY, 30, 0));
    let mut t = Shell::new(800, 600);
    t.cursor_x = i32::MAX;
    assert!(!t.input_fits(EV_REL, REL_X, 1));
    assert!(t.input_fits(EV_REL, REL_Y, 1));
}

#[test]
fn round_gradient_corners_middle_and_centre() {
    let mut fb = Framebuffer::new(vec![7u32; 20 * 16], 20, 16);
    let (top, bottom) = (Color::rgb(0, 0, 0), Color::rgb(0xff, 0x10, 0x80));
    draw_round_gradient(&mut fb, 2, 1, 15, 13, 4, top, bottom);
    for (x, y) in [(2, 1), (16, 1), (2, 13), (16, 13)] {
        assert_eq!(px(&fb, x, y), 7);
    }
    for j in 4..9u32 {
        let t = j as i32;
        let lerp = |a: i32, b: i32| (a + (b - a) * t / 12) as u32;
        let c = (lerp(0, 0xff) << 16) | (lerp(0, 0x10) << 8) | lerp(0, 0x80);
        for i in 0..15u32 {
            assert_eq!(px(&fb, 2 + i, 1 + j), c);
        }
    }
}
