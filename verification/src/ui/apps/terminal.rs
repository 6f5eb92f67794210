//! Terminal app: a small command interpreter.

use vstd::prelude::*;
use std::collections::VecDeque;
use crate::drivers::input::{key_char, keycode_to_char};
use crate::graphics::framebuffer::{
    Canvas, Color, Framebuffer, rgb_word, success_word, white_word, zamin_fg_word,
};
use crate::ui::Shell;
use crate::ui::apps::welcome::sat_sub;
use crate::text::{
    char_len, starts_with, decimal, join, join_words, lemma_decimal_len_u64, lemma_words_fit, push_decimal, push_str, split_words, string_of, string_pop,
    string_push, string_views, words,
};

verus! {

/// Most lines of output the terminal keeps.
pub const MAX_LINES: usize = 16;

/// Longest command line, in characters.
pub const MAX_LINE_LEN: usize = 60;

/// Longest line of output, in characters.
pub const MAX_OUTPUT_LEN: usize = 80;

/// Heap figures shown by `mem`: total size, bytes in use, bytes free.
pub type HeapStats = (usize, usize, usize);

/// A terminal: lines of output (newest last) and the command line being typed.
pub struct TerminalState {
    history: VecDeque<String>,
    line: String,
}

/// What a terminal holds.
pub struct TerminalView {
    pub history: Seq<Seq<char>>,
    pub line: Seq<char>,
}

impl View for TerminalState {
    type V = TerminalView;

    closed spec fn view(&self) -> TerminalView {
        TerminalView { history: string_views(self.history@), line: self.line@ }
    }
}

/// Characters a command line can hold: what the keyboard types, less backspace and enter.
pub open spec fn line_char(c: char) -> bool {
    c == ' ' || ('a' <= c && c <= 'z') || ('0' <= c && c <= '9')
}

impl TerminalView {
    /// At most `MAX_LINES` lines of output of at most `MAX_OUTPUT_LEN` characters each, and a
    /// command line of at most `MAX_LINE_LEN` typeable characters.
    pub open spec fn wf(self) -> bool {
        &&& self.history.len() <= MAX_LINES
        &&& self.line.len() <= MAX_LINE_LEN
        &&& forall|i: int| 0 <= i < self.line.len() ==> line_char(#[trigger] self.line[i])
        &&& forall|i: int| 0 <= i < self.history.len() ==> (#[trigger] self.history[i]).len() <= MAX_OUTPUT_LEN
    }
}

/// `h` with `l` added as the newest line, the oldest line dropped when `h` is full.
pub open spec fn push_line(h: Seq<Seq<char>>, l: Seq<char>) -> Seq<Seq<char>> {
    if h.len() >= MAX_LINES {
        h.drop_first().push(l)
    } else {
        h.push(l)
    }
}

/// `h` with the lines `ls` added in order.
pub open spec fn push_lines(h: Seq<Seq<char>>, ls: Seq<Seq<char>>) -> Seq<Seq<char>>
    decreases ls.len(),
{
    if ls.len() == 0 {
        h
    } else {
        push_line(push_lines(h, ls.drop_last()), ls.last())
    }
}

/// The greeting of a new terminal.
pub open spec fn greeting() -> Seq<Seq<char>> {
    seq!["ZaminOS Terminal v0.1"@, "'help' deb yozing va Enter bosing"@]
}

pub open spec fn help_lines() -> Seq<Seq<char>> {
    seq![
        "Mavjud buyruqlar:"@,
        "  help        - bu xabar"@,
        "  echo TEXT   - matnni qaytarish"@,
        "  clear       - ekranni tozalash"@,
        "  ps          - jarayonlar"@,
        "  mem         - heap holati"@,
        "  uname       - tizim haqida"@,
        "  about       - ZaminOS haqida"@,
    ]
}

pub open spec fn ps_lines() -> Seq<Seq<char>> {
    seq![
        "PID  STATE   NAME"@,
        "  1  running kernel_main"@,
        "  2  sleeping idle (wfi)"@,
        "  3  active   shell (UI)"@,
        "  4  ready    timer-irq"@,
    ]
}

pub open spec fn mem_lines(heap: HeapStats) -> Seq<Seq<char>> {
    seq![
        "size  : "@ + decimal((heap.0 / 1024) as nat) + " KiB"@,
        "used  : "@ + decimal(heap.1 as nat) + " bytes"@,
        "free  : "@ + decimal((heap.2 / 1024) as nat) + " KiB"@,
    ]
}

pub open spec fn uname_lines() -> Seq<Seq<char>> {
    seq!["ZaminOS v0.7.0 aarch64 (QEMU virt) Rust nightly"@]
}

pub open spec fn about_lines() -> Seq<Seq<char>> {
    seq!["ZaminOS - mobile-first konvergent OS"@, "aarch64 + Rust + ramfb + virtio-input"@]
}

pub open spec fn unknown_lines(cmd: Seq<char>) -> Seq<Seq<char>> {
    seq!["buyruq topilmadi: "@ + cmd, "'help' bilan ro'yxat"@]
}

/// The output after running command line `raw`: its first word picks the command and the
/// remaining words are its arguments; a blank line does nothing.
pub open spec fn run_command(h: Seq<Seq<char>>, raw: Seq<char>, heap: HeapStats) -> Seq<Seq<char>> {
    let ws = words(raw);
    if ws.len() == 0 {
        h
    } else if ws[0] == "help"@ {
        push_lines(h, help_lines())
    } else if ws[0] == "echo"@ {
        push_line(h, join(ws.subrange(1, ws.len() as int), seq![' ']))
    } else if ws[0] == "clear"@ {
        Seq::empty()
    } else if ws[0] == "ps"@ {
        push_lines(h, ps_lines())
    } else if ws[0] == "mem"@ {
        push_lines(h, mem_lines(heap))
    } else if ws[0] == "uname"@ {
        push_lines(h, uname_lines())
    } else if ws[0] == "about"@ {
        push_lines(h, about_lines())
    } else {
        push_lines(h, unknown_lines(ws[0]))
    }
}

/// The terminal after key `code` is pressed, and whether the terminal used the key:
/// backspace deletes the last character, enter echoes the line, clears it and runs it,
/// a typeable character is added while the line is shorter than `MAX_LINE_LEN`.
pub open spec fn terminal_key(t: TerminalView, code: u16, heap: HeapStats) -> (TerminalView, bool) {
    if code == 14 {
        (TerminalView { history: t.history, line: if t.line.len() > 0 { t.line.drop_last() } else { t.line } }, true)
    } else if code == 28 {
        (
            TerminalView {
                history: run_command(push_line(t.history, "$ "@ + t.line), t.line, heap),
                line: Seq::empty(),
            },
            true,
        )
    } else if key_char(code) is Some && key_char(code)->0 != '\x08' && key_char(code)->0 != '\n' {
        (
            TerminalView {
                history: t.history,
                line: if t.line.len() < MAX_LINE_LEN { t.line.push(key_char(code)->0) } else { t.line },
            },
            true,
        )
    } else {
        (t, false)
    }
}

/// Every typeable key gives a character that a command line can hold.
pub proof fn lemma_key_line_char(code: u16)
    requires
        key_char(code) is Some,
        key_char(code)->0 != '\x08',
        key_char(code)->0 != '\n',
    ensures
        line_char(key_char(code)->0),
{
}

impl TerminalState {
    /// A terminal showing its greeting, with an empty command line.
    pub fn new() -> (t: Self)
        ensures
            t@.history == push_lines(Seq::empty(), greeting()),
            t@.line == Seq::<char>::empty(),
            t@.wf(),
    {
        let mut s = Self { history: VecDeque::new(), line: String::new() };
        proof {
            reveal_strlit("ZaminOS Terminal v0.1");
            reveal_strlit("'help' deb yozing va Enter bosing");
        }
        s.write("ZaminOS Terminal v0.1");
        s.write("'help' deb yozing va Enter bosing");
        proof {
            reveal_with_fuel(push_lines, 3);
        }
        s
    }

    /// The lines of output, oldest first.
    pub fn history(&self) -> (h: &VecDeque<String>)
        ensures
            string_views(h@) == self@.history,
    {
        &self.history
    }

    /// The command line being typed.
    pub fn line(&self) -> (l: &str)
        ensures
            l@ == self@.line,
    {
        self.line.as_str()
    }

    /// Adds `line` as the newest line of output.
    fn write(&mut self, line: &str)
        requires
            old(self)@.wf(),
            line@.len() <= MAX_OUTPUT_LEN,
        ensures
            final(self)@.history == push_line(old(self)@.history, line@),
            final(self)@.line == old(self)@.line,
            final(self)@.wf(),
    {
        let ghost h = self@.history;
        if self.history.len() >= MAX_LINES {
            let _ = self.history.pop_front();
        }
        let ghost mid = string_views(self.history@);
        self.history.push_back(string_of(line));
        assert(string_views(self.history@) =~= mid.push(line@));
        assert forall|i: int| 0 <= i < self@.history.len() implies (#[trigger] self@.history[i]).len()
            <= MAX_OUTPUT_LEN by {
            if h.len() >= MAX_LINES && i < mid.len() {
                assert(mid[i] == h[i + 1]);
            }
        }
    }

    /// Handles key `code`; `heap` is what the `mem` command reports. Returns whether the
    /// terminal used the key.
    pub fn handle_key(&mut self, code: u16, heap: HeapStats) -> (used: bool)
        requires
            old(self)@.wf(),
        ensures
            (final(self)@, used) == terminal_key(old(self)@, code, heap),
            final(self)@.wf(),
    {
        if code == 14 {
            let _ = string_pop(&mut self.line);
            return true;
        }
        if code == 28 {
            let cmd = self.line.clone();
            proof {
                reveal_strlit("$ ");
            }
            let mut echoed = string_of("$ ");
            push_str(&mut echoed, cmd.as_str());
            self.write(echoed.as_str());
            self.line = String::new();
            self.exec(cmd.as_str(), heap);
            return true;
        }
        if let Some(ch) = keycode_to_char(code) {
            if ch != '\x08' && ch != '\n' {
                proof {
                    lemma_key_line_char(code);
                }
                if char_len(&self.line) < MAX_LINE_LEN {
                    string_push(&mut self.line, ch);
                    assert(forall|i: int| 0 <= i < self.line@.len() ==> line_char(#[trigger] self.line@[i]));
                }
                return true;
            }
        }
        false
    }

    /// Adds each line of `ls` in order.
    fn write_all(&mut self, ls: &[&str])
        requires
            old(self)@.wf(),
            forall|i: int| 0 <= i < ls@.len() ==> (#[trigger] ls@[i])@.len() <= MAX_OUTPUT_LEN,
        ensures
            final(self)@.history == push_lines(
                old(self)@.history,
                Seq::new(ls@.len(), |i: int| ls@[i]@),
            ),
            final(self)@.line == old(self)@.line,
            final(self)@.wf(),
    {
        let ghost h = self@.history;
        let mut i: usize = 0;
        while i < ls.len()
            invariant
                0 <= i <= ls@.len(),
                self@.wf(),
                forall|j: int| 0 <= j < ls@.len() ==> (#[trigger] ls@[j])@.len() <= MAX_OUTPUT_LEN,
                self@.line == old(self)@.line,
                self@.history == push_lines(h, Seq::new(i as nat, |j: int| ls@[j]@)),
            decreases ls@.len() - i,
        {
            self.write(ls[i]);
            proof {
                let next = Seq::new((i + 1) as nat, |j: int| ls@[j]@);
                assert(next.drop_last() =~= Seq::new(i as nat, |j: int| ls@[j]@));
            }
            i += 1;
        }
    }

    /// Runs command line `raw`.
    fn exec(&mut self, raw: &str, heap: HeapStats)
        requires
            old(self)@.wf(),
            raw@.len() <= MAX_LINE_LEN,
        ensures
            final(self)@.history == run_command(old(self)@.history, raw@, heap),
            final(self)@.line == old(self)@.line,
            final(self)@.wf(),
    {
        let parts = split_words(raw);
        if parts.len() == 0 {
            return;
        }
        proof {
            reveal_strlit("help");
            reveal_strlit("Mavjud buyruqlar:");
            reveal_strlit("  help        - bu xabar");
            reveal_strlit("  echo TEXT   - matnni qaytarish");
            reveal_strlit("  clear       - ekranni tozalash");
            reveal_strlit("  ps          - jarayonlar");
            reveal_strlit("  mem         - heap holati");
            reveal_strlit("  uname       - tizim haqida");
            reveal_strlit("  about       - ZaminOS haqida");
            reveal_strlit("echo");
            reveal_strlit("clear");
            reveal_strlit("ps");
            reveal_strlit("PID  STATE   NAME");
            reveal_strlit("  1  running kernel_main");
            reveal_strlit("  2  sleeping idle (wfi)");
            reveal_strlit("  3  active   shell (UI)");
            reveal_strlit("  4  ready    timer-irq");
            reveal_strlit("mem");
            reveal_strlit("size  : ");
            reveal_strlit(" KiB");
            reveal_strlit("used  : ");
            reveal_strlit(" bytes");
            reveal_strlit("free  : ");
            reveal_strlit("uname");
            reveal_strlit("ZaminOS v0.7.0 aarch64 (QEMU virt) Rust nightly");
            reveal_strlit("about");
            reveal_strlit("ZaminOS - mobile-first konvergent OS");
            reveal_strlit("aarch64 + Rust + ramfb + virtio-input");
            reveal_strlit("buyruq topilmadi: ");
            reveal_strlit("'help' bilan ro'yxat");
            lemma_words_fit(raw@, 1);
        }
        let cmd = &parts[0];
        assert(cmd@ == words(raw@)[0]);
        if *cmd == string_of("help") {
            let ls = [
                "Mavjud buyruqlar:",
                "  help        - bu xabar",
                "  echo TEXT   - matnni qaytarish",
                "  clear       - ekranni tozalash",
                "  ps          - jarayonlar",
                "  mem         - heap holati",
                "  uname       - tizim haqida",
                "  about       - ZaminOS haqida",
            ];
            self.write_all(&ls);
            assert(Seq::new(ls@.len(), |i: int| ls@[i]@) =~= help_lines());
        } else if *cmd == string_of("echo") {
            let rest = join_words(&parts, 1);
            self.write(rest.as_str());
        } else if *cmd == string_of("clear") {
            self.history.clear();
        } else if *cmd == string_of("ps") {
            let ls = [
                "PID  STATE   NAME",
                "  1  running kernel_main",
                "  2  sleeping idle (wfi)",
                "  3  active   shell (UI)",
                "  4  ready    timer-irq",
            ];
            self.write_all(&ls);
            assert(Seq::new(ls@.len(), |i: int| ls@[i]@) =~= ps_lines());
        } else if *cmd == string_of("mem") {
            let mut size = string_of("size  : ");
            proof {
                lemma_decimal_len_u64((heap.0 / 1024) as u64);
                lemma_decimal_len_u64(heap.1 as u64);
                lemma_decimal_len_u64((heap.2 / 1024) as u64);
            }
            push_decimal(&mut size, (heap.0 / 1024) as u64);
            push_str(&mut size, " KiB");
            let mut used = string_of("used  : ");
            push_decimal(&mut used, heap.1 as u64);
            push_str(&mut used, " bytes");
            let mut free = string_of("free  : ");
            push_decimal(&mut free, (heap.2 / 1024) as u64);
            push_str(&mut free, " KiB");
            self.write(size.as_str());
            self.write(used.as_str());
            self.write(free.as_str());
            proof {
                reveal_with_fuel(push_lines, 4);
                let ls = mem_lines(heap);
            }
        } else if *cmd == string_of("uname") {
            self.write("ZaminOS v0.7.0 aarch64 (QEMU virt) Rust nightly");
            reveal_with_fuel(push_lines, 2);
        } else if *cmd == string_of("about") {
            self.write("ZaminOS - mobile-first konvergent OS");
            self.write("aarch64 + Rust + ramfb + virtio-input");
            reveal_with_fuel(push_lines, 3);
        } else {
            let mut msg = string_of("buyruq topilmadi: ");
            push_str(&mut msg, cmd.as_str());
            self.write(msg.as_str());
            self.write("'help' bilan ro'yxat");
            reveal_with_fuel(push_lines, 3);
        }
    }
}

/// The colour of a line of output: commands echoed with `$ ` in gold, the rest in white.
pub open spec fn output_color(line: Seq<char>) -> u32 {
    if 2 <= line.len() && line.subrange(0, 2) == "$ "@ {
        zamin_fg_word()
    } else {
        white_word()
    }
}

/// Lines `start..n` of `hist` drawn from (`lx`, `ly`), 14 pixels apart.
pub open spec fn history_canvas(cv: Canvas, hist: Seq<Seq<char>>, start: int, n: int, lx: int, ly: int) -> Canvas
    decreases n - start,
{
    if n <= start {
        cv
    } else {
        history_canvas(cv, hist, start, n - 1, lx, ly).text(
            lx,
            ly + 14 * (n - 1 - start),
            hist[n - 1],
            output_color(hist[n - 1]),
            1,
        )
    }
}

/// The terminal in the `w` x `h` area at (`x`, `y`): title bar, the newest lines of output
/// that fit, and the prompt with the command line and a caret.
pub open spec fn terminal_canvas(cv: Canvas, t: TerminalView, x: int, y: int, w: int, h: int) -> Canvas {
    let body_y = y + 24;
    let body_h = h - 24;
    let c1 = cv.fill_rect(x, y, w, 22, rgb_word(0x14, 0x22, 0x3a) as u32).text(
        x + 8,
        y + 6,
        "Terminal  >_"@,
        zamin_fg_word(),
        1,
    ).fill_rect(x, body_y, w, body_h, rgb_word(0x02, 0x06, 0x10) as u32);
    let max_lines = sat_sub(body_h / 14, 2);
    let start = sat_sub(t.history.len() as int, max_lines);
    let c2 = history_canvas(c1, t.history, start, t.history.len() as int, x + 6, body_y + 4);
    let prompt_y = body_y + body_h - 14 - 2;
    let prompt = "$ "@ + t.line;
    let caret_x = x + 6 + prompt.len() * 8;
    c2.fill_rect(x, prompt_y, w, 16, rgb_word(0x05, 0x0a, 0x16) as u32).text(
        x + 6,
        prompt_y + 2,
        prompt,
        success_word(),
        1,
    ).fill_rect(caret_x + 1, prompt_y + 2, 2, 10, success_word())
}

/// Draws the terminal in the `w` x `h` area at (`x`, `y`).
pub fn draw(shell: &Shell, fb: &mut Framebuffer, x: u32, y: u32, w: u32, h: u32)
    requires
        old(fb)@.wf(),
        shell.terminal@.wf(),
        h >= 24,
        x + w + 1024 <= u32::MAX,
        y + h + 64 <= u32::MAX,
    ensures
        final(fb)@ == terminal_canvas(old(fb)@, shell.terminal@, x as int, y as int, w as int, h as int),
        final(fb)@.wf(),
{
    let ghost t = shell.terminal@;
    let line_h: u32 = 14;
    let scale: u32 = 1;

    // Title bar
    proof {
        reveal_strlit("Terminal  >_");
        reveal_strlit("$ ");
    }
    fb.fill_rect(x, y, w, 22, Color::rgb(0x14, 0x22, 0x3a));
    fb.draw_text(x + 8, y + 6, "Terminal  >_", Color::zamin_fg(), 1);

    // Body
    let body_y = y + 24;
    let body_h = h - 24;
    fb.fill_rect(x, body_y, w, body_h, Color::rgb(0x02, 0x06, 0x10));
    let ghost c1 = fb@;

    // The newest lines of output that fit
    let max_lines = (body_h / line_h).saturating_sub(2) as usize;
    let history = &shell.terminal.history;
    let start = history.len().saturating_sub(max_lines);
    let mut ly = body_y + 4;
    let mut i = start;
    while i < history.len()
        invariant
            start <= i <= history@.len(),
            t == shell.terminal@,
            t.wf(),
            string_views(history@) == t.history,
            fb@.wf(),
            ly == body_y + 4 + 14 * (i - start),
            history@.len() <= MAX_LINES,
            history@.len() - start <= max_lines,
            max_lines == sat_sub((body_h / 14) as int, 2),
            body_h == h - 24,
            line_h == 14,
            scale == 1,
            x + w + 1024 <= u32::MAX,
            y + h + 64 <= u32::MAX,
            body_y == y + 24,
            fb@ == history_canvas(c1, t.history, start as int, i as int, x + 6, body_y + 4),
        decreases history@.len() - i,
    {
        let line = history[i].as_str();
        assert(line@ == t.history[i as int]);
        proof {
            reveal_strlit("$ ");
        }
        let color = if starts_with(line, "$ ") {
            Color::zamin_fg()
        } else {
            Color::white()
        };
        fb.draw_text(x + 6, ly, line, color, scale);
        ly += line_h;
        i += 1;
    }

    // Prompt
    let prompt_y = body_y + body_h - line_h - 2;
    fb.fill_rect(x, prompt_y, w, line_h + 2, Color::rgb(0x05, 0x0a, 0x16));
    let mut prompt = string_of("$ ");
    push_str(&mut prompt, shell.terminal.line.as_str());
    fb.draw_text(x + 6, prompt_y + 2, prompt.as_str(), Color::success(), scale);
    // Caret
    proof {
        assert(forall|k: int| 0 <= k < prompt@.len() ==> '\0' <= #[trigger] prompt@[k] <= '\u{7f}');
        vstd::utf8::is_ascii_chars_encode_utf8(prompt@);
    }
    let caret_x = x + 6 + (prompt.as_str().len() as u32) * 8;
    fb.fill_rect(caret_x + 1, prompt_y + 2, 2, 10, Color::success());
}

} // verus!
