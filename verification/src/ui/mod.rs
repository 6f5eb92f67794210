//! The shell: a convergent layout that is either a desktop or a phone.
//!
//! `Layout::Desktop` shows a desktop with a task bar; `Layout::Mobile` shows a phone in the
//! middle of the screen. Esc switches between them.

pub mod apps;
pub mod desktop;
pub mod icons;

use vstd::prelude::*;
use crate::drivers::input::{ABS_X, ABS_Y, EV_ABS, EV_KEY, EV_REL, REL_X, REL_Y, key_char, keycode_to_char};
use crate::graphics::framebuffer::{Canvas, Color, Framebuffer, law_fill_rect_region, lemma_glyph_step, lemma_glyph_zero, rgb_word};
use crate::text::{string_pop, string_push};
use apps::{App, next_app};
use apps::calculator::{CalcEffect, CalcState, CalcView, calc_key, law_calc_key};
use apps::files::{FilesState, files_key};
use apps::music::{MusicState, music_key};
use apps::paint::{PaintState, Stroke, palette_color};
use apps::settings::{SettingsState, settings_key};
use apps::terminal::{HeapStats, TerminalState, TerminalView, greeting, push_lines, terminal_key};
use apps::clock::trunc_div;
use crate::graphics::raster::abs;

verus! {

#[derive(Clone, Copy, PartialEq, Eq, Structural, Debug)]
pub enum Layout {
    Desktop,
    Mobile,
}

/// The other layout.
pub open spec fn toggled(l: Layout) -> Layout {
    match l {
        Layout::Desktop => Layout::Mobile,
        Layout::Mobile => Layout::Desktop,
    }
}

impl Layout {
    /// The other layout.
    pub fn toggle(self) -> (l: Self)
        ensures
            l == toggled(self),
    {
        match self {
            Layout::Desktop => Layout::Mobile,
            Layout::Mobile => Layout::Desktop,
        }
    }
}

#[derive(Clone, Copy, PartialEq, Eq, Structural, Debug)]
pub enum MobileView {
    /// Lock screen, shown when the phone layout is entered.
    Lock,
    /// Home screen with widgets and a dock.
    Home,
    /// Grid of every app.
    AppDrawer,
    /// Inside an app.
    InApp,
}

#[derive(Clone, Copy, PartialEq, Eq, Structural, Debug)]
pub enum DesktopView {
    /// Wallpaper, widgets and the open window.
    Desktop,
    /// The start menu is open.
    StartMenu,
}

/// Widest byte length of the typed text.
pub const MAX_TYPED: usize = 60;

/// The shell's state.
pub struct Shell {
    pub layout: Layout,
    pub mobile_view: MobileView,
    pub desktop_view: DesktopView,
    pub current_app: App,
    pub uptime_ticks: u32,
    pub event_count: u32,
    pub typed: String,
    pub cursor_x: i32,
    pub cursor_y: i32,
    pub heap_used: usize,
    pub heap_size: usize,
    pub terminal: TerminalState,
    pub paint: PaintState,
    pub calculator: CalcState,
    pub files: FilesState,
    pub music: MusicState,
    pub settings: SettingsState,
}

/// What the shell holds, with text and app states by their views.
pub struct ShellView {
    pub layout: Layout,
    pub mobile_view: MobileView,
    pub desktop_view: DesktopView,
    pub current_app: App,
    pub uptime_ticks: u32,
    pub event_count: u32,
    pub typed: Seq<char>,
    pub cursor_x: i32,
    pub cursor_y: i32,
    pub heap_used: usize,
    pub heap_size: usize,
    pub terminal: TerminalView,
    pub strokes: Seq<Stroke>,
    pub calculator: CalcView,
    pub palette_index: int,
    pub files: usize,
    pub music: MusicState,
    pub settings: SettingsState,
}

impl View for Shell {
    type V = ShellView;

    open spec fn view(&self) -> ShellView {
        ShellView {
            layout: self.layout,
            mobile_view: self.mobile_view,
            desktop_view: self.desktop_view,
            current_app: self.current_app,
            uptime_ticks: self.uptime_ticks,
            event_count: self.event_count,
            typed: self.typed@,
            cursor_x: self.cursor_x,
            cursor_y: self.cursor_y,
            heap_used: self.heap_used,
            heap_size: self.heap_size,
            terminal: self.terminal@,
            strokes: self.paint.strokes_spec(),
            calculator: self.calculator@,
            palette_index: self.paint.palette_index(),
            files: self.files.selected,
            music: self.music,
            settings: self.settings,
        }
    }
}

/// Byte length of the UTF-8 text of `s`, as `str::len` reports it.
pub open spec fn byte_len(s: Seq<char>) -> usize {
    vstd::utf8::encode_utf8(s).len() as usize
}

/// The shell after the current app sees key `code`, and whether it used it.
pub open spec fn app_key(s: ShellView, code: u16, heap: HeapStats) -> (ShellView, bool) {
    match s.current_app {
        App::Terminal => {
            let (t, used) = terminal_key(s.terminal, code, heap);
            (ShellView { terminal: t, ..s }, used)
        },
        App::Calculator => {
            let (c, used) = calc_key(s.calculator, code);
            (ShellView { calculator: c, ..s }, used)
        },
        App::Files => {
            let (f, used) = files_key(s.files, code);
            (ShellView { files: f, ..s }, used)
        },
        App::Music => {
            let (m, used) = music_key(s.music, code);
            (ShellView { music: m, ..s }, used)
        },
        App::Settings => {
            let (st, used) = settings_key(s.settings, code);
            (ShellView { settings: st, ..s }, used)
        },
        _ => (s, false),
    }
}

/// The shell after a typed key no app used: backspace deletes the last typed character,
/// another character is added while the typed text is shorter than `MAX_TYPED` bytes.
pub open spec fn typed_key(s: ShellView, code: u16) -> (ShellView, bool) {
    match key_char(code) {
        Some(ch) => {
            if ch == '\x08' {
                (ShellView { typed: if s.typed.len() > 0 { s.typed.drop_last() } else { s.typed }, ..s }, true)
            } else if byte_len(s.typed) < MAX_TYPED {
                (ShellView { typed: s.typed.push(ch), ..s }, true)
            } else {
                (s, true)
            }
        },
        None => (s, false),
    }
}

/// The shell after key `code` is pressed (the event already counted), and whether the
/// key was used.
pub open spec fn key_press(s: ShellView, code: u16, heap: HeapStats) -> (ShellView, bool) {
    if code == 1 {
        let layout = toggled(s.layout);
        (
            ShellView {
                layout,
                mobile_view: if layout == Layout::Mobile { MobileView::Lock } else { s.mobile_view },
                ..s
            },
            true,
        )
    } else if s.layout == Layout::Mobile && s.mobile_view == MobileView::Lock {
        (ShellView { mobile_view: MobileView::Home, ..s }, true)
    } else if code == 59 && s.layout == Layout::Mobile {
        (ShellView { mobile_view: MobileView::Home, ..s }, true)
    } else if code == 60 && s.layout == Layout::Mobile {
        (ShellView { mobile_view: MobileView::AppDrawer, ..s }, true)
    } else if code == 60 && s.layout == Layout::Desktop {
        (
            ShellView {
                desktop_view: match s.desktop_view {
                    DesktopView::Desktop => DesktopView::StartMenu,
                    DesktopView::StartMenu => DesktopView::Desktop,
                },
                ..s
            },
            true,
        )
    } else if s.layout == Layout::Mobile && (s.mobile_view == MobileView::Home || s.mobile_view
        == MobileView::AppDrawer) {
        if code == 15 {
            (ShellView { current_app: next_app(s.current_app), ..s }, true)
        } else if code == 28 {
            (ShellView { mobile_view: MobileView::InApp, ..s }, true)
        } else {
            (s, false)
        }
    } else if s.layout == Layout::Desktop && s.desktop_view == DesktopView::StartMenu {
        if code == 15 {
            (ShellView { current_app: next_app(s.current_app), ..s }, true)
        } else if code == 28 {
            (ShellView { desktop_view: DesktopView::Desktop, ..s }, true)
        } else {
            (s, false)
        }
    } else if code == 15 {
        (ShellView { current_app: next_app(s.current_app), ..s }, true)
    } else {
        let (a, used) = app_key(s, code, heap);
        if used {
            (a, true)
        } else {
            typed_key(s, code)
        }
    }
}

/// `v` limited to `lo..=hi`.
pub open spec fn clamp(v: int, lo: int, hi: int) -> int {
    if v < lo {
        lo
    } else if v > hi {
        hi
    } else {
        v
    }
}

/// The shell after the pointer moves to (`x`, `y`): the paint app records the move.
pub open spec fn pointer_moved(s: ShellView, x: i32, y: i32) -> ShellView {
    ShellView {
        cursor_x: x,
        cursor_y: y,
        strokes: if s.current_app == App::Paint {
            s.strokes.push(
                Stroke {
                    x0: s.cursor_x,
                    y0: s.cursor_y,
                    x1: x,
                    y1: y,
                    color: palette_color(s.palette_index),
                },
            )
        } else {
            s.strokes
        },
        ..s
    }
}

/// Whether an event of type `ev_type` with `value` is counted: key presses and pointer events.
pub open spec fn counts_event(ev_type: u16, value: u32) -> bool {
    (ev_type == EV_KEY && value == 1) || ev_type == EV_ABS || ev_type == EV_REL
}

/// The shell after input event (`ev_type`, `code`, `value`), and whether it was used.
/// Key releases and unknown event types change nothing; key presses and pointer events are
/// counted. An absolute pointer axis maps 0..32768 onto 800 x 600; a relative move is
/// added and kept on 0..=799 x 0..=599.
pub open spec fn shell_input(s: ShellView, ev_type: u16, code: u16, value: u32, heap: HeapStats) -> (
    ShellView,
    bool,
) {
    if ev_type == EV_KEY {
        if value != 1 {
            (s, false)
        } else {
            key_press(ShellView { event_count: (s.event_count + 1) as u32, ..s }, code, heap)
        }
    } else if ev_type == EV_ABS {
        let c = ShellView { event_count: (s.event_count + 1) as u32, ..s };
        if code == ABS_X {
            (pointer_moved(c, ((value as int * 800) / 32768) as i32, c.cursor_y), true)
        } else if code == ABS_Y {
            (pointer_moved(c, c.cursor_x, ((value as int * 600) / 32768) as i32), true)
        } else {
            (c, false)
        }
    } else if ev_type == EV_REL {
        let c = ShellView { event_count: (s.event_count + 1) as u32, ..s };
        let dv = value as i32;
        if code == REL_X {
            (pointer_moved(c, clamp(c.cursor_x + dv, 0, 799) as i32, c.cursor_y), true)
        } else if code == REL_Y {
            (pointer_moved(c, c.cursor_x, clamp(c.cursor_y + dv, 0, 599) as i32), true)
        } else {
            (c, false)
        }
    } else {
        (s, false)
    }
}

/// Whether a key press reaches the current app: it is not Esc, not on a phone lock screen,
/// not F1/F2 where they switch views, not inside the home screen, app drawer or start
/// menu, and not Tab.
pub open spec fn key_reaches_app(s: ShellView, code: u16) -> bool {
    &&& code != 1
    &&& !(s.layout == Layout::Mobile && s.mobile_view == MobileView::Lock)
    &&& !(code == 59 && s.layout == Layout::Mobile)
    &&& code != 60
    &&& !(s.layout == Layout::Mobile && (s.mobile_view == MobileView::Home || s.mobile_view
        == MobileView::AppDrawer))
    &&& !(s.layout == Layout::Desktop && s.desktop_view == DesktopView::StartMenu)
    &&& code != 15
}

/// Whether the current app can take key `code` without overflowing: stepping the file
/// selection or the track past the largest index, or a level past `u32::MAX`.
pub open spec fn app_key_fits(s: ShellView, code: u16) -> bool {
    &&& s.current_app == App::Files && code == 36 ==> s.files < usize::MAX
    &&& s.current_app == App::Music && code == 37 ==> s.music.track < usize::MAX
    &&& s.current_app == App::Settings && code == 13 ==> s.settings.volume + 10 <= u32::MAX
    &&& s.current_app == App::Settings && code == 27 ==> s.settings.brightness + 10 <= u32::MAX
}

/// Whether handling the event cannot overflow a counter or a coordinate, nor step an app's
/// selection or level past its largest value.
pub open spec fn input_in_range(s: ShellView, ev_type: u16, code: u16, value: u32) -> bool {
    &&& counts_event(ev_type, value) ==> s.event_count < u32::MAX
    &&& ev_type == EV_REL && code == REL_X ==> i32::MIN <= s.cursor_x + (value as i32) <= i32::MAX
    &&& ev_type == EV_REL && code == REL_Y ==> i32::MIN <= s.cursor_y + (value as i32) <= i32::MAX
    &&& ev_type == EV_KEY && value == 1 && key_reaches_app(s, code) ==> app_key_fits(s, code)
}

impl Shell {
    /// The internal states of the terminal, the calculator and the paint app are well formed.
    pub open spec fn wf(&self) -> bool {
        &&& self.terminal@.wf()
        &&& self.calculator@.wf()
        &&& self.paint.wf()
    }

    /// A fresh shell for a `width` x `height` screen: desktop layout, the welcome app,
    /// the pointer in the middle and every app in its initial state.
    pub fn new(width: u32, height: u32) -> (s: Self)
        ensures
            s.wf(),
            s.layout == Layout::Desktop,
            s.mobile_view == MobileView::Lock,
            s.desktop_view == DesktopView::Desktop,
            s.current_app == App::Welcome,
            s.uptime_ticks == 0,
            s.event_count == 0,
            s.typed@ == Seq::<char>::empty(),
            s.cursor_x == width / 2,
            s.cursor_y == height / 2,
            s.heap_used == 0,
            s.heap_size == 0,
            s.terminal@.history == push_lines(Seq::empty(), greeting()),
            s.terminal@.line == Seq::<char>::empty(),
            s.paint.strokes_spec() == Seq::<Stroke>::empty(),
            s.calculator@ == (CalcView { display: "0"@, pending: None, fresh: true, effect: CalcEffect::Keep }),
            s.paint.palette_index() == 0,
            s.files.selected == 0,
            s.music == (MusicState { playing: true, track: 0, progress: 27 }),
            s.settings == (SettingsState {
                dark_mode: true,
                wifi: true,
                bluetooth: false,
                do_not_disturb: false,
                volume: 70,
                brightness: 80,
            }),
    {
        Self {
            layout: Layout::Desktop,
            mobile_view: MobileView::Lock,
            desktop_view: DesktopView::Desktop,
            current_app: App::Welcome,
            uptime_ticks: 0,
            event_count: 0,
            typed: String::new(),
            cursor_x: (width / 2) as i32,
            cursor_y: (height / 2) as i32,
            heap_used: 0,
            heap_size: 0,
            terminal: TerminalState::new(),
            paint: PaintState::new(),
            calculator: CalcState::new(),
            files: FilesState::new(),
            music: MusicState::new(),
            settings: SettingsState::new(),
        }
    }

    /// Whether `handle_input` can take the event (`ev_type`, `code`, `value`) without
    /// overflowing; see `input_in_range`.
    pub fn input_fits(&self, ev_type: u16, code: u16, value: u32) -> (b: bool)
        ensures
            b == input_in_range(self@, ev_type, code, value),
    {
        let counted = (ev_type == EV_KEY && value == 1) || ev_type == EV_ABS || ev_type == EV_REL;
        if counted && self.event_count == u32::MAX {
            return false;
        }
        if ev_type == EV_REL {
            let dv = value as i32;
            let base = if code == REL_X {
                self.cursor_x as i64
            } else {
                self.cursor_y as i64
            };
            if (code == REL_X || code == REL_Y) && (base + dv as i64 > i32::MAX as i64 || base
                + dv as i64 <= i32::MIN as i64 - 1) {
                return false;
            }
        }
        if ev_type == EV_KEY && value == 1 && code != 1 && !(self.layout == Layout::Mobile
            && self.mobile_view == MobileView::Lock) && !(code == 59 && self.layout
            == Layout::Mobile) && code != 60 && !(self.layout == Layout::Mobile && (
        self.mobile_view == MobileView::Home || self.mobile_view == MobileView::AppDrawer))
            && !(self.layout == Layout::Desktop && self.desktop_view == DesktopView::StartMenu)
            && code != 15 {
            if self.current_app == App::Files && code == 36 && self.files.selected == usize::MAX {
                return false;
            }
            if self.current_app == App::Music && code == 37 && self.music.track == usize::MAX {
                return false;
            }
            if self.current_app == App::Settings && code == 13 && self.settings.volume > u32::MAX
                - 10 {
                return false;
            }
            if self.current_app == App::Settings && code == 27 && self.settings.brightness
                > u32::MAX - 10 {
                return false;
            }
        }
        true
    }

    /// Handles key press `code` (already counted).
    fn key_press(&mut self, code: u16, heap: HeapStats) -> (used: bool)
        requires
            old(self).wf(),
            key_reaches_app(old(self)@, code) ==> app_key_fits(old(self)@, code),
        ensures
            (final(self)@, used) == key_press(old(self)@, code, heap),
            final(self).wf(),
    {
        // Esc: switch layout; entering the phone shows its lock screen.
        if code == 1 {
            self.layout = self.layout.toggle();
            if self.layout == Layout::Mobile {
                self.mobile_view = MobileView::Lock;
            }
            return true;
        }
        // Phone lock screen: any key goes to the home screen.
        if self.layout == Layout::Mobile && self.mobile_view == MobileView::Lock {
            self.mobile_view = MobileView::Home;
            return true;
        }
        // F1 on the phone: home.
        if code == 59 && self.layout == Layout::Mobile {
            self.mobile_view = MobileView::Home;
            return true;
        }
        // F2 on the phone: app drawer.
        if code == 60 && self.layout == Layout::Mobile {
            self.mobile_view = MobileView::AppDrawer;
            return true;
        }
        // F2 on the desktop: open or close the start menu.
        if code == 60 && self.layout == Layout::Desktop {
            self.desktop_view = match self.desktop_view {
                DesktopView::Desktop => DesktopView::StartMenu,
                DesktopView::StartMenu => DesktopView::Desktop,
            };
            return true;
        }
        // Phone home screen or drawer: Tab picks the next app, Enter opens it.
        if self.layout == Layout::Mobile && (self.mobile_view == MobileView::Home
            || self.mobile_view == MobileView::AppDrawer) {
            if code == 15 {
                self.current_app = self.current_app.next();
                return true;
            }
            if code == 28 {
                self.mobile_view = MobileView::InApp;
                return true;
            }
            return false;
        }
        // Start menu: Tab picks the next app, Enter opens it.
        if self.layout == Layout::Desktop && self.desktop_view == DesktopView::StartMenu {
            if code == 15 {
                self.current_app = self.current_app.next();
                return true;
            }
            if code == 28 {
                self.desktop_view = DesktopView::Desktop;
                return true;
            }
            return false;
        }
        // Tab: next app.
        if code == 15 {
            self.current_app = self.current_app.next();
            return true;
        }
        // The current app may take the key.
        proof {
            law_calc_key(self.calculator@, code);
        }
        match self.current_app {
            App::Terminal => if self.terminal.handle_key(code, heap) {
                return true;
            },
            App::Calculator => if self.calculator.handle_key(code) {
                return true;
            },
            App::Files => if self.files.handle_key(code) {
                return true;
            },
            App::Music => if self.music.handle_key(code) {
                return true;
            },
            App::Settings => if self.settings.handle_key(code) {
                return true;
            },
            _ => {},
        }
        if let Some(ch) = keycode_to_char(code) {
            if ch == '\x08' {
                let _ = string_pop(&mut self.typed);
            } else if self.typed.as_str().len() < MAX_TYPED {
                string_push(&mut self.typed, ch);
            }
            return true;
        }
        false
    }

    /// Records a pointer move to (`x`, `y`); the paint app draws it.
    fn move_pointer(&mut self, x: i32, y: i32)
        requires
            old(self).wf(),
        ensures
            final(self)@ == pointer_moved(old(self)@, x, y),
            final(self).wf(),
    {
        let prev = (self.cursor_x, self.cursor_y);
        self.cursor_x = x;
        self.cursor_y = y;
        if self.current_app == App::Paint {
            self.paint.on_pointer(prev.0, prev.1, self.cursor_x, self.cursor_y);
        }
    }

    /// Handles input event (`ev_type`, `code`, `value`); `heap` is what the terminal's `mem`
    /// command reports. Returns whether the event was used.
    pub fn handle_input(&mut self, ev_type: u16, code: u16, value: u32, heap: HeapStats) -> (used: bool)
        requires
            old(self).wf(),
            input_in_range(old(self)@, ev_type, code, value),
        ensures
            (final(self)@, used) == shell_input(old(self)@, ev_type, code, value, heap),
            final(self).wf(),
    {
        if ev_type == EV_KEY {
            if value != 1 {
                return false;
            }
            self.event_count += 1;
            self.key_press(code, heap)
        } else if ev_type == EV_ABS {
            self.event_count += 1;
            if code == ABS_X {
                let x = ((value as u64 * 800) / 32768) as i32;
                let y = self.cursor_y;
                self.move_pointer(x, y);
            } else if code == ABS_Y {
                let x = self.cursor_x;
                let y = ((value as u64 * 600) / 32768) as i32;
                self.move_pointer(x, y);
            } else {
                return false;
            }
            true
        } else if ev_type == EV_REL {
            self.event_count += 1;
            let dv = value as i32;
            if code == REL_X {
                let v = self.cursor_x + dv;
                let x = if v < 0 {
                    0
                } else if v > 799 {
                    799
                } else {
                    v
                };
                let y = self.cursor_y;
                self.move_pointer(x, y);
            } else if code == REL_Y {
                let v = self.cursor_y + dv;
                let y = if v < 0 {
                    0
                } else if v > 599 {
                    599
                } else {
                    v
                };
                let x = self.cursor_x;
                self.move_pointer(x, y);
            } else {
                return false;
            }
            true
        } else {
            false
        }
    }

    /// Outlines the `w` x `h` box at (`x`, `y`) in colour `c`.
    pub fn frame_box(&self, fb: &mut Framebuffer, x: u32, y: u32, w: u32, h: u32, c: Color)
        requires
            old(fb)@.wf(),
            1 <= w,
            1 <= h,
            x + w <= u32::MAX,
            y + h <= u32::MAX,
        ensures
            final(fb)@ == frame_box_canvas(old(fb)@, x as int, y as int, w as int, h as int, c.0),
            final(fb)@.wf(),
    {
        fb.hline(x, y, w, c);
        fb.hline(x, y + h - 1, w, c);
        fb.vline(x, y, h, c);
        fb.vline(x + w - 1, y, h, c);
    }
}

/// The outline of the `w` x `h` box at (`x`, `y`): top, bottom, left and right edges.
pub open spec fn frame_box_canvas(cv: Canvas, x: int, y: int, w: int, h: int, c: u32) -> Canvas {
    cv.fill_rect(x, y, w, 1, c).fill_rect(x, y + h - 1, w, 1, c).fill_rect(x, y, 1, h, c).fill_rect(
        x + w - 1,
        y,
        1,
        h,
        c,
    )
}

/// Esc pressed twice brings back the layout it started from; entering the phone layout
/// always shows its lock screen.
pub proof fn law_escape_twice(s: ShellView, heap: HeapStats)
    requires
        s.event_count + 2 <= u32::MAX,
    ensures
        ({
            let (s1, used1) = shell_input(s, EV_KEY, 1, 1, heap);
            let (s2, used2) = shell_input(s1, EV_KEY, 1, 1, heap);
            &&& used1 && used2
            &&& s1.layout != s.layout
            &&& s1.layout == Layout::Mobile ==> s1.mobile_view == MobileView::Lock
            &&& s2.layout == s.layout
            &&& s2.event_count == s.event_count + 2
            &&& s2.current_app == s.current_app
            &&& s2.typed == s.typed
        }),
{
}

/// Key presses and pointer events are counted once each; key releases and events of other
/// types leave the shell as it was and are not used.
pub proof fn law_event_counting(s: ShellView, ev_type: u16, code: u16, value: u32, heap: HeapStats)
    requires
        input_in_range(s, ev_type, code, value),
    ensures
        counts_event(ev_type, value) ==> shell_input(s, ev_type, code, value, heap).0.event_count
            == s.event_count + 1,
        !counts_event(ev_type, value) ==> shell_input(s, ev_type, code, value, heap) == (s, false),
{
}

/// A relative pointer move keeps the pointer on the 800 x 600 screen along the moved axis.
pub proof fn law_relative_pointer_on_screen(s: ShellView, code: u16, value: u32, heap: HeapStats)
    requires
        input_in_range(s, EV_REL, code, value),
    ensures
        code == REL_X ==> 0 <= shell_input(s, EV_REL, code, value, heap).0.cursor_x <= 799,
        code == REL_Y ==> 0 <= shell_input(s, EV_REL, code, value, heap).0.cursor_y <= 599,
{
}

/// Typed text that is ASCII and at most `MAX_TYPED` characters long stays so after any event.
pub proof fn law_typed_text_bounded(s: ShellView, ev_type: u16, code: u16, value: u32, heap: HeapStats)
    requires
        vstd::utf8::is_ascii_chars(s.typed),
        s.typed.len() <= MAX_TYPED,
    ensures
        vstd::utf8::is_ascii_chars(shell_input(s, ev_type, code, value, heap).0.typed),
        shell_input(s, ev_type, code, value, heap).0.typed.len() <= MAX_TYPED,
{
    vstd::utf8::is_ascii_chars_encode_utf8(s.typed);
    let t = shell_input(s, ev_type, code, value, heap).0.typed;
    assert forall|i: int| 0 <= i < t.len() implies '\0' <= #[trigger] t[i] <= '\u{7f}' by {
        if i < s.typed.len() {
            assert(t[i] == s.typed[i]);
        }
    }
}

/// The 8 x 8 pictogram of app `a`, one byte per row, bit 7 the leftmost column.
pub open spec fn icon_bits(a: App) -> Seq<u8> {
    match a {
        App::Welcome => seq![0b00011000u8, 0b00111100u8, 0b01100110u8, 0b11000011u8, 0b11000011u8, 0b01111110u8, 0b01100110u8, 0b01100110u8],
        App::SysMon => seq![0b00000000u8, 0b00010000u8, 0b00010100u8, 0b00111100u8, 0b01010110u8, 0b01111111u8, 0b00000000u8, 0b11111111u8],
        App::Keyboard => seq![0b00000000u8, 0b11111111u8, 0b10101011u8, 0b10000001u8, 0b10101011u8, 0b10000001u8, 0b11111111u8, 0b00000000u8],
        App::Terminal => seq![0b11111111u8, 0b10000001u8, 0b10110001u8, 0b10011001u8, 0b10001101u8, 0b10000001u8, 0b10111101u8, 0b11111111u8],
        App::Paint => seq![0b00111100u8, 0b01000010u8, 0b10100101u8, 0b10100101u8, 0b10000001u8, 0b01000010u8, 0b00011100u8, 0b00001000u8],
        App::Clock => seq![0b00111100u8, 0b01000010u8, 0b10001001u8, 0b10001001u8, 0b10001111u8, 0b10000001u8, 0b01000010u8, 0b00111100u8],
        App::Calculator => seq![0b11111111u8, 0b10000001u8, 0b10111101u8, 0b10000001u8, 0b10101010u8, 0b10101010u8, 0b10101010u8, 0b11111111u8],
        App::Files => seq![0b00111100u8, 0b01000110u8, 0b10000010u8, 0b10000010u8, 0b10000010u8, 0b10000010u8, 0b10000010u8, 0b11111110u8],
        App::Music => seq![0b00011110u8, 0b00010010u8, 0b00010010u8, 0b00010010u8, 0b00010010u8, 0b01110010u8, 0b11110010u8, 0b11100000u8],
        App::Settings => seq![0b00011000u8, 0b01011010u8, 0b00111100u8, 0b11100111u8, 0b11100111u8, 0b00111100u8, 0b01011010u8, 0b00011000u8],
    }
}

/// The 8 x 8 pictogram of app `app` (white glyph), one byte per row, bit 7 leftmost.
pub fn icon_pattern(app: App) -> (p: [u8; 8])
    ensures
        p@ == icon_bits(app),
{
    let p = match app {
        // house
        App::Welcome => [
            0b00011000,
            0b00111100,
            0b01100110,
            0b11000011,
            0b11000011,
            0b01111110,
            0b01100110,
            0b01100110,
        ],
        // bar chart
        App::SysMon => [
            0b00000000,
            0b00010000,
            0b00010100,
            0b00111100,
            0b01010110,
            0b01111111,
            0b00000000,
            0b11111111,
        ],
        // keys
        App::Keyboard => [
            0b00000000,
            0b11111111,
            0b10101011,
            0b10000001,
            0b10101011,
            0b10000001,
            0b11111111,
            0b00000000,
        ],
        // terminal
        App::Terminal => [
            0b11111111,
            0b10000001,
            0b10110001,
            0b10011001,
            0b10001101,
            0b10000001,
            0b10111101,
            0b11111111,
        ],
        // palette
        App::Paint => [
            0b00111100,
            0b01000010,
            0b10100101,
            0b10100101,
            0b10000001,
            0b01000010,
            0b00011100,
            0b00001000,
        ],
        // clock
        App::Clock => [
            0b00111100,
            0b01000010,
            0b10001001,
            0b10001001,
            0b10001111,
            0b10000001,
            0b01000010,
            0b00111100,
        ],
        // calculator grid
        App::Calculator => [
            0b11111111,
            0b10000001,
            0b10111101,
            0b10000001,
            0b10101010,
            0b10101010,
            0b10101010,
            0b11111111,
        ],
        // folder
        App::Files => [
            0b00111100,
            0b01000110,
            0b10000010,
            0b10000010,
            0b10000010,
            0b10000010,
            0b10000010,
            0b11111110,
        ],
        // note
        App::Music => [
            0b00011110,
            0b00010010,
            0b00010010,
            0b00010010,
            0b00010010,
            0b01110010,
            0b11110010,
            0b11100000,
        ],
        // gear
        App::Settings => [
            0b00011000,
            0b01011010,
            0b00111100,
            0b11100111,
            0b11100111,
            0b00111100,
            0b01011010,
            0b00011000,
        ],
    };
    p
}

/// Draws the pictogram of `app` at (`x`, `y`) in `fg`, each pattern pixel a
/// `scale` x `scale` square.
pub fn draw_app_icon(fb: &mut Framebuffer, app: App, x: u32, y: u32, fg: Color, scale: u32)
    requires
        old(fb)@.wf(),
        x + 8 * scale <= u32::MAX,
        y + 8 * scale <= u32::MAX,
    ensures
        final(fb)@ == old(fb)@.glyph(x as int, y as int, icon_bits(app), true, fg.0, scale as int, 64),
        final(fb)@.wf(),
{
    let ghost start = fb@;
    let pattern = icon_pattern(app);
    let ghost g = pattern@;
    proof {
        lemma_glyph_zero(start, x as int, y as int, g, true, fg.0, scale as int);
    }
    let mut row: usize = 0;
    while row < 8
        invariant
            0 <= row <= 8,
            fb@.wf(),
            g == pattern@,
            x + 8 * scale <= u32::MAX,
            y + 8 * scale <= u32::MAX,
            fb@ == start.glyph(x as int, y as int, g, true, fg.0, scale as int, row * 8),
        decreases 8 - row,
    {
        let byte = pattern[row];
        let mut col: u32 = 0;
        while col < 8
            invariant
                0 <= row < 8,
                0 <= col <= 8,
                fb@.wf(),
                g == pattern@,
                byte == g[row as int],
                x + 8 * scale <= u32::MAX,
                y + 8 * scale <= u32::MAX,
                fb@ == start.glyph(x as int, y as int, g, true, fg.0, scale as int, row * 8 + col),
            decreases 8 - col,
        {
            proof {
                lemma_glyph_step(
                    start,
                    x as int,
                    y as int,
                    g,
                    true,
                    fg.0,
                    scale as int,
                    row as int,
                    col as int,
                );
            }
            let mask: u8 = 1u8 << ((7 - col) as u8);
            if byte & mask != 0 {
                assert((col + 1) * scale <= 8 * scale) by (nonlinear_arith)
                    requires
                        col < 8,
                ;
                assert((row + 1) * scale <= 8 * scale) by (nonlinear_arith)
                    requires
                        row < 8,
                ;
                assert((col + 1) * scale == col * scale + scale) by (nonlinear_arith);
                assert((row + 1) * scale == row * scale + scale) by (nonlinear_arith);
                fb.fill_rect(x + col * scale, y + (row as u32) * scale, scale, scale, fg);
            }
            col += 1;
        }
        row += 1;
    }
}

/// The Wi-Fi mark drawn at (`x`, `y`) in white: a dot and three arcs, 14 x 10 pixels.
pub open spec fn wifi_icon_canvas(cv: Canvas, x: int, y: int) -> Canvas {
    let c = rgb_word(0xff, 0xff, 0xff) as u32;
    cv.fill_rect(x + 6, y + 8, 2, 2, c).fill_rect(x + 4, y + 5, 6, 1, c).put(x + 3, y + 6, c).put(
        x + 10,
        y + 6,
        c,
    ).fill_rect(x + 2, y + 2, 10, 1, c).put(x + 1, y + 3, c).put(x + 12, y + 3, c).fill_rect(
        x,
        y,
        14,
        1,
        c,
    )
}

/// Draws the Wi-Fi mark at (`x`, `y`).
pub fn draw_wifi_icon(fb: &mut Framebuffer, x: u32, y: u32)
    requires
        old(fb)@.wf(),
        x + 14 <= u32::MAX,
        y + 10 <= u32::MAX,
    ensures
        final(fb)@ == wifi_icon_canvas(old(fb)@, x as int, y as int),
        final(fb)@.wf(),
{
    let c = Color::white();
    // bottom dot
    fb.fill_rect(x + 6, y + 8, 2, 2, c);
    // first arc
    fb.fill_rect(x + 4, y + 5, 6, 1, c);
    fb.put(x + 3, y + 6, c);
    fb.put(x + 10, y + 6, c);
    // second arc
    fb.fill_rect(x + 2, y + 2, 10, 1, c);
    fb.put(x + 1, y + 3, c);
    fb.put(x + 12, y + 3, c);
    // third, widest arc
    fb.fill_rect(x, y, 14, 1, c);
}

/// The battery mark drawn at (`x`, `y`): a white 22 x 10 outline with a tip on the right,
/// filled about 80% in green.
pub open spec fn battery_icon_canvas(cv: Canvas, x: int, y: int) -> Canvas {
    let c = rgb_word(0xff, 0xff, 0xff) as u32;
    let g = rgb_word(0x66, 0xbb, 0x6a) as u32;
    cv.fill_rect(x, y + 1, 22, 1, c).fill_rect(x, y + 8, 22, 1, c).fill_rect(x, y + 1, 1, 8, c).fill_rect(
        x + 21,
        y + 1,
        1,
        8,
        c,
    ).fill_rect(x + 22, y + 3, 2, 4, c).fill_rect(x + 2, y + 3, 16, 4, g)
}

/// Draws the battery mark at (`x`, `y`).
pub fn draw_battery_icon(fb: &mut Framebuffer, x: u32, y: u32)
    requires
        old(fb)@.wf(),
        x + 24 <= u32::MAX,
        y + 10 <= u32::MAX,
    ensures
        final(fb)@ == battery_icon_canvas(old(fb)@, x as int, y as int),
        final(fb)@.wf(),
{
    let c = Color::white();
    let g = Color::success();
    // outline
    fb.hline(x, y + 1, 22, c);
    fb.hline(x, y + 8, 22, c);
    fb.vline(x, y + 1, 8, c);
    fb.vline(x + 21, y + 1, 8, c);
    // tip
    fb.fill_rect(x + 22, y + 3, 2, 4, c);
    // charge
    fb.fill_rect(x + 2, y + 3, 16, 4, g);
}

/// One Newton step from any positive guess never falls below the integer square root:
/// `(x + n / x) / 2` squared past its successor exceeds `n`.
proof fn lemma_newton_step(n: int, x: int)
    requires
        n >= 0,
        x >= 1,
    ensures
        ((x + n / x) / 2 + 1) * ((x + n / x) / 2 + 1) > n,
{
    let q = n / x;
    let y = (x + q) / 2;
    vstd::arithmetic::div_mod::lemma_fundamental_div_mod(n, x);
    vstd::arithmetic::div_mod::lemma_mod_bound(n, x);
    assert(n < x * (q + 1)) by (nonlinear_arith)
        requires
            n == x * q + n % x,
            n % x < x,
    ;
    assert(q >= 0) by {
        vstd::arithmetic::div_mod::lemma_div_pos_is_pos(n, x);
    }
    assert((x + q + 1) * (x + q + 1) >= 4 * (x * (q + 1))) by (nonlinear_arith)
        requires
            x >= 1,
            q >= 0,
    ;
    assert(4 * ((y + 1) * (y + 1)) >= (x + q + 1) * (x + q + 1)) by (nonlinear_arith)
        requires
            2 * (y + 1) >= x + q + 1,
            x + q + 1 >= 0,
    ;
}

/// The integer square root of `n`: the largest `r` with `r * r <= n` (Newton's method).
pub fn isqrt(n: u32) -> (r: u32)
    requires
        n < u32::MAX,
    ensures
        r * r <= n < (r + 1) * (r + 1),
{
    if n == 0 {
        return 0;
    }
    let mut x = n;
    proof {
        lemma_newton_step(n as int, n as int);
        assert(n / n == 1) by {
            vstd::arithmetic::div_mod::lemma_div_by_self(n as int);
        }
        assert((n + 1) * (n + 1) > n) by (nonlinear_arith)
            requires
                n >= 1,
        ;
    }
    let mut y = (x + 1) / 2;
    while y < x
        invariant
            1 <= n < u32::MAX,
            1 <= x <= n,
            x == n || x <= (n + 1) / 2,
            x == n ==> y == (n + 1) / 2,
            y as int == (x + n / x) / 2,
            (x + 1) * (x + 1) > n,
            (y + 1) * (y + 1) > n,
        decreases x,
    {
        x = y;
        proof {
            assert(x >= 1) by (nonlinear_arith)
                requires
                    (x + 1) * (x + 1) > n,
                    n >= 1,
            ;
            lemma_newton_step(n as int, x as int);
            vstd::arithmetic::div_mod::lemma_fundamental_div_mod(n as int, x as int);
            vstd::arithmetic::div_mod::lemma_mod_bound(n as int, x as int);
            let q = n / x;
            if x * x > n {
                assert(q < x) by (nonlinear_arith)
                    requires
                        n == x * q + n % x,
                        0 <= n % x,
                        x * x > n,
                        x >= 1,
                ;
            } else {
                assert(x < 65536) by (nonlinear_arith)
                    requires
                        x * x <= n,
                        n < 0x1_0000_0000,
                        x >= 1,
                ;
                assert(q <= x + 2) by (nonlinear_arith)
                    requires
                        n == x * q + n % x,
                        0 <= n % x,
                        (x + 1) * (x + 1) > n,
                        x >= 1,
                ;
            }
        }
        y = (x + n / x) / 2;
    }
    proof {
        let q = n / x;
        vstd::arithmetic::div_mod::lemma_fundamental_div_mod(n as int, x as int);
        vstd::arithmetic::div_mod::lemma_mod_bound(n as int, x as int);
        assert(x * x <= n) by (nonlinear_arith)
            requires
                n == x * q + n % x,
                0 <= n % x,
                q >= x,
                x >= 1,
        ;
    }
    x
}

/// Whether `s` is the integer square root of `n`.
pub open spec fn is_root(n: int, s: int) -> bool {
    0 <= s && s * s <= n < (s + 1) * (s + 1)
}

/// The integer square root of `n`: the `s >= 0` with `s * s <= n < (s + 1) * (s + 1)`.
pub open spec fn root(n: int) -> int {
    choose|s: int| #[trigger] is_root(n, s)
}

/// Only one number is the integer square root.
pub proof fn lemma_root_unique(n: int, s: int)
    requires
        0 <= s,
        s * s <= n < (s + 1) * (s + 1),
    ensures
        root(n) == s,
{
    assert(is_root(n, s));
    let t = root(n);
    if t < s {
        assert((t + 1) * (t + 1) <= s * s) by (nonlinear_arith)
            requires
                0 <= t + 1 <= s,
        ;
    }
    if t > s {
        assert((s + 1) * (s + 1) <= t * t) by (nonlinear_arith)
            requires
                0 <= s + 1 <= t,
        ;
    }
}

/// `a` moved towards `b` by the fraction `t / total`, rounded towards `a`.
pub open spec fn lerp(a: int, b: int, t: int, total: int) -> int {
    a + trunc_div((b - a) * t, total)
}

/// A channel difference scaled by a row number below `n` stays within the bound for `n`.
proof fn lemma_scaled_diff(d: int, t: int, n: int)
    requires
        0 <= t <= n,
        abs(d) * n <= i32::MAX,
    ensures
        i32::MIN <= d * t <= i32::MAX,
{
    assert(abs(d) * t <= abs(d) * n) by (nonlinear_arith)
        requires
            0 <= t <= n,
            abs(d) >= 0,
    ;
    if d < 0 {
        assert(d * t == -(abs(d) * t)) by (nonlinear_arith)
            requires
                d < 0,
        ;
    } else {
        assert(d * t == abs(d) * t) by (nonlinear_arith)
            requires
                d >= 0,
        ;
    }
}

/// An interpolated channel stays between its two ends.
proof fn lemma_lerp_range(a: int, b: int, t: int, total: int)
    requires
        0 <= a <= 255,
        0 <= b <= 255,
        0 <= t <= total,
        total >= 1,
    ensures
        0 <= lerp(a, b, t, total) <= 255,
{
    if b >= a {
        assert(0 <= (b - a) * t / total <= b - a) by (nonlinear_arith)
            requires
                b >= a,
                0 <= t <= total,
                total >= 1,
        {
            vstd::arithmetic::div_mod::lemma_div_is_ordered((b - a) * t, (b - a) * total, total);
            vstd::arithmetic::div_mod::lemma_div_multiples_vanish(b - a, total);
        }
    } else {
        assert(0 <= (a - b) * t / total <= a - b) by (nonlinear_arith)
            requires
                a > b,
                0 <= t <= total,
                total >= 1,
        {
            vstd::arithmetic::div_mod::lemma_div_is_ordered((a - b) * t, (a - b) * total, total);
            vstd::arithmetic::div_mod::lemma_div_multiples_vanish(a - b, total);
        }
        assert((b - a) * t == -((a - b) * t)) by (nonlinear_arith);
    }
}

/// Channel `shift` (16 red, 8 green, 0 blue) of an XRGB8888 colour.
pub open spec fn channel(c: u32, shift: int) -> int {
    (c as int / (if shift == 16 { 0x10000int } else if shift == 8 { 0x100 } else { 1 })) % 0x100
}

/// The colour of row `j` of an `h` rows high vertical gradient from `top` to `bottom`.
pub open spec fn gradient_row(top: u32, bottom: u32, j: int, h: int) -> u32 {
    let total = if h - 1 >= 1 { h - 1 } else { 1 };
    (lerp(channel(top, 16), channel(bottom, 16), j, total) * 0x10000 + lerp(channel(top, 8), channel(bottom, 8), j, total)
        * 0x100 + lerp(channel(top, 0), channel(bottom, 0), j, total)) as u32
}

/// How far row `j` of an `h` rows high box with corners of radius `r` starts inside the
/// box: the rows of the top and bottom `r` follow a quarter circle.
pub open spec fn row_inset(j: int, h: int, r: int) -> int {
    if j < r {
        r - root(r * r - (r - j) * (r - j))
    } else if j >= h - r {
        r - root(r * r - (j - (h - r - 1)) * (j - (h - r - 1)))
    } else {
        0
    }
}

/// The first `n` rows of a box with rounded corners filled with a vertical gradient; a
/// row whose inset reaches half the width is left out.
pub open spec fn round_gradient_rows(
    cv: Canvas,
    x: int,
    y: int,
    w: int,
    h: int,
    r: int,
    top: u32,
    bottom: u32,
    n: nat,
) -> Canvas
    decreases n,
{
    if n == 0 {
        cv
    } else {
        let prev = round_gradient_rows(cv, x, y, w, h, r, top, bottom, (n - 1) as nat);
        let j = n - 1;
        let off = row_inset(j, h, r);
        if off < w / 2 {
            prev.fill_rect(x + off, y + j, w - 2 * off, 1, gradient_row(top, bottom, j, h))
        } else {
            prev
        }
    }
}

/// What the first `n` rows of a rounded gradient box leave at a pixel on the canvas:
/// the row's colour where the row is drawn and covers the pixel, the old pixel elsewhere.
proof fn lemma_round_gradient_at(
    cv: Canvas,
    x: int,
    y: int,
    w: int,
    h: int,
    r: int,
    top: u32,
    bottom: u32,
    n: nat,
    px: int,
    py: int,
)
    requires
        cv.wf(),
        0 <= px < cv.width,
        0 <= py < cv.height,
    ensures
        round_gradient_rows(cv, x, y, w, h, r, top, bottom, n).wf(),
        round_gradient_rows(cv, x, y, w, h, r, top, bottom, n).width == cv.width,
        round_gradient_rows(cv, x, y, w, h, r, top, bottom, n).height == cv.height,
        round_gradient_rows(cv, x, y, w, h, r, top, bottom, n).at(px, py) == ({
            let j = py - y;
            let off = row_inset(j, h, r);
            if 0 <= j < n && off < w / 2 && x + off <= px < x + w - off {
                gradient_row(top, bottom, j, h)
            } else {
                cv.at(px, py)
            }
        }),
    decreases n,
{
    if n > 0 {
        let prev = round_gradient_rows(cv, x, y, w, h, r, top, bottom, (n - 1) as nat);
        lemma_round_gradient_at(cv, x, y, w, h, r, top, bottom, (n - 1) as nat, px, py);
        let j = n - 1;
        let off = row_inset(j, h, r);
        if off < w / 2 {
            law_fill_rect_region(prev, x + off, y + j, w - 2 * off, 1, gradient_row(top, bottom, j, h), px, py);
        }
    }
}

/// A box with rounded corners (radius at least 1) leaves its four corner pixels as they
/// were; every row away from the corners is filled across the whole width with its
/// gradient colour (when the box is at least two pixels wide); so the centre pixel takes
/// the colour of the middle row.
pub proof fn law_round_gradient(cv: Canvas, x: int, y: int, w: int, h: int, r: int, top: u32, bottom: u32)
    requires
        cv.wf(),
        0 <= r,
        w > 2 * r,
        h > 2 * r,
    ensures
        ({
            let out = round_gradient_rows(cv, x, y, w, h, r, top, bottom, h as nat);
            &&& forall|px: int, py: int|
                0 <= px < cv.width && 0 <= py < cv.height && r >= 1 && (px == x || px == x + w - 1) && (py == y
                    || py == y + h - 1) ==> #[trigger] out.at(px, py) == cv.at(px, py)
            &&& forall|i: int, j: int|
                0 <= i < w && r <= j < h - r && w >= 2 && 0 <= x + i < cv.width && 0 <= y + j < cv.height
                    ==> #[trigger] out.at(x + i, y + j) == gradient_row(top, bottom, j, h)
            &&& w >= 2 && 0 <= x + w / 2 < cv.width && 0 <= y + h / 2 < cv.height ==> out.at(x + w / 2, y + h / 2)
                == gradient_row(top, bottom, h / 2, h)
        }),
{
    let out = round_gradient_rows(cv, x, y, w, h, r, top, bottom, h as nat);
    lemma_root_unique(0, 0);
    assert forall|px: int, py: int|
        0 <= px < cv.width && 0 <= py < cv.height && r >= 1 && (px == x || px == x + w - 1) && (py == y || py
            == y + h - 1) implies #[trigger] out.at(px, py) == cv.at(px, py) by {
        lemma_round_gradient_at(cv, x, y, w, h, r, top, bottom, h as nat, px, py);
        let j = py - y;
        if j == 0 {
            assert(r * r - (r - j) * (r - j) == 0);
        } else {
            assert(j - (h - r - 1) == r);
            assert(r * r - (j - (h - r - 1)) * (j - (h - r - 1)) == 0);
        }
    }
    assert forall|i: int, j: int|
        0 <= i < w && r <= j < h - r && w >= 2 && 0 <= x + i < cv.width && 0 <= y + j < cv.height implies
            #[trigger] out.at(x + i, y + j) == gradient_row(top, bottom, j, h) by {
        lemma_round_gradient_at(cv, x, y, w, h, r, top, bottom, h as nat, x + i, y + j);
    }
    if w >= 2 && 0 <= x + w / 2 < cv.width && 0 <= y + h / 2 < cv.height {
        lemma_round_gradient_at(cv, x, y, w, h, r, top, bottom, h as nat, x + w / 2, y + h / 2);
    }
}

/// Fills the `w` x `h` box at (`x`, `y`) with corners of radius `r` with a vertical
/// gradient from `top` to `bottom`. Boxes no larger than twice the radius are not handled.
pub fn draw_round_gradient(fb: &mut Framebuffer, x: u32, y: u32, w: u32, h: u32, r: u32, top: Color, bottom: Color)
    requires
        old(fb)@.wf(),
        w > 2 * r,
        h > 2 * r,
        r <= 46340,
        h - 1 <= i32::MAX,
        abs(channel(bottom.0, 16) - channel(top.0, 16)) * (h - 1) <= i32::MAX,
        abs(channel(bottom.0, 8) - channel(top.0, 8)) * (h - 1) <= i32::MAX,
        abs(channel(bottom.0, 0) - channel(top.0, 0)) * (h - 1) <= i32::MAX,
        x + w <= u32::MAX,
        y + h <= u32::MAX,
    ensures
        final(fb)@ == round_gradient_rows(old(fb)@, x as int, y as int, w as int, h as int, r as int, top.0, bottom.0, h as nat),
        final(fb)@.wf(),
{
    let ghost start = fb@;
    let (tv, bv) = (top.0, bottom.0);
    let (tr, tg, tb) = ((tv >> 16) & 0xff, (tv >> 8) & 0xff, tv & 0xff);
    let (br, bg, bb) = ((bv >> 16) & 0xff, (bv >> 8) & 0xff, bv & 0xff);
    proof {
        assert((tv >> 16) & 0xff == (tv / 0x10000) % 0x100) by (bit_vector);
        assert((tv >> 8) & 0xff == (tv / 0x100) % 0x100) by (bit_vector);
        assert(tv & 0xff == tv % 0x100) by (bit_vector);
        assert((bv >> 16) & 0xff == (bv / 0x10000) % 0x100) by (bit_vector);
        assert((bv >> 8) & 0xff == (bv / 0x100) % 0x100) by (bit_vector);
        assert(bv & 0xff == bv % 0x100) by (bit_vector);
    }
    let r_i = r as i32;
    assert(r * r <= 46340 * 46340) by (nonlinear_arith)
        requires
            r <= 46340,
    ;
    let r2 = r_i * r_i;
    let total: i32 = if h - 1 >= 1 {
        (h - 1) as i32
    } else {
        1
    };
    let mut j: u32 = 0;
    while j < h
        invariant
            0 <= j <= h,
            fb@.wf(),
            w > 2 * r,
            h > 2 * r,
            r <= 46340,
            h - 1 <= i32::MAX,
            abs(channel(bv, 16) - channel(tv, 16)) * (h - 1) <= i32::MAX,
            abs(channel(bv, 8) - channel(tv, 8)) * (h - 1) <= i32::MAX,
            abs(channel(bv, 0) - channel(tv, 0)) * (h - 1) <= i32::MAX,
            x + w <= u32::MAX,
            y + h <= u32::MAX,
            r_i == r,
            r2 == r * r,
            total == (if h - 1 >= 1 { h - 1 } else { 1 }),
            tr == channel(tv, 16),
            tg == channel(tv, 8),
            tb == channel(tv, 0),
            br == channel(bv, 16),
            bg == channel(bv, 8),
            bb == channel(bv, 0),
            fb@ == round_gradient_rows(start, x as int, y as int, w as int, h as int, r as int, tv, bv, j as nat),
        decreases h - j,
    {
        let t = j as i32;
        proof {
            lemma_lerp_range(tr as int, br as int, t as int, total as int);
            lemma_lerp_range(tg as int, bg as int, t as int, total as int);
            lemma_lerp_range(tb as int, bb as int, t as int, total as int);
        }
        let dr = br as i32 - tr as i32;
        let dg = bg as i32 - tg as i32;
        let db = bb as i32 - tb as i32;
        proof {
            lemma_scaled_diff(dr as int, t as int, h - 1);
            lemma_scaled_diff(dg as int, t as int, h - 1);
            lemma_scaled_diff(db as int, t as int, h - 1);
        }
        let red = (tr as i32 + dr * t / total) as u8;
        let grn = (tg as i32 + dg * t / total) as u8;
        let blu = (tb as i32 + db * t / total) as u8;
        let c = Color::rgb(red, grn, blu);
        let row_offset: i32 = if j < r {
            let dy = (r - j) as i32;
            proof {
                assert(dy * dy <= r * r) by (nonlinear_arith)
                    requires
                        0 <= dy <= r,
                ;
            }
            let dx2 = r2 - dy * dy;
            let s = isqrt(dx2 as u32);
            proof {
                lemma_root_unique(dx2 as int, s as int);
                assert(s <= r) by (nonlinear_arith)
                    requires
                        s * s <= dx2,
                        dx2 <= r * r,
                ;
            }
            r_i - s as i32
        } else if j >= h - r {
            let dy = (j - (h - r - 1)) as i32;
            proof {
                assert(dy * dy <= r * r) by (nonlinear_arith)
                    requires
                        0 <= dy <= r,
                ;
            }
            let dx2 = r2 - dy * dy;
            let s = isqrt(dx2 as u32);
            proof {
                lemma_root_unique(dx2 as int, s as int);
                assert(s <= r) by (nonlinear_arith)
                    requires
                        s * s <= dx2,
                        dx2 <= r * r,
                ;
            }
            r_i - s as i32
        } else {
            0
        };
        let off = row_offset as u32;
        if off < w / 2 {
            fb.fill_rect(x + off, y + j, w - 2 * off, 1, c);
        }
        j += 1;
    }
}

/// On the phone's home screen and in its app drawer, Enter opens the selected app and Tab
/// selects the next one; in the desktop's start menu, Enter opens the selected app in its
/// window and Tab selects the next one. Each key is used and counted and changes nothing
/// else.
pub proof fn law_launch_keys(s: ShellView, heap: HeapStats)
    requires
        s.event_count < u32::MAX,
    ensures
        s.layout == Layout::Mobile && (s.mobile_view == MobileView::Home || s.mobile_view
            == MobileView::AppDrawer) ==> shell_input(s, EV_KEY, 28, 1, heap) == (ShellView {
            mobile_view: MobileView::InApp,
            event_count: (s.event_count + 1) as u32,
            ..s
        }, true),
        s.layout == Layout::Mobile && (s.mobile_view == MobileView::Home || s.mobile_view
            == MobileView::AppDrawer) ==> shell_input(s, EV_KEY, 15, 1, heap) == (ShellView {
            current_app: next_app(s.current_app),
            event_count: (s.event_count + 1) as u32,
            ..s
        }, true),
        s.layout == Layout::Desktop && s.desktop_view == DesktopView::StartMenu ==> shell_input(
            s,
            EV_KEY,
            28,
            1,
            heap,
        ) == (ShellView {
            desktop_view: DesktopView::Desktop,
            event_count: (s.event_count + 1) as u32,
            ..s
        }, true),
        s.layout == Layout::Desktop && s.desktop_view == DesktopView::StartMenu ==> shell_input(
            s,
            EV_KEY,
            15,
            1,
            heap,
        ) == (ShellView {
            current_app: next_app(s.current_app),
            event_count: (s.event_count + 1) as u32,
            ..s
        }, true),
{
}

} // verus!
