//! Keyboard tester app.

use vstd::prelude::*;
use crate::graphics::framebuffer::{
    Canvas, Color, Framebuffer, accent_word, lemma_text_step, lemma_text_zero, muted_word,
    rgb_word, white_word, zamin_fg_word,
};
use crate::text::{decimal, push_decimal, push_signed_decimal, push_str, signed_decimal, string_of};
use crate::ui::Shell;
use crate::ui::apps::welcome::sat_sub;
use vstd::string::StrSliceExecFns;

verus! {

/// The three letter rows of the little keyboard picture.
pub open spec fn key_rows() -> Seq<Seq<char>> {
    seq!["QWERTYUIOP"@, "ASDFGHJKL"@, "ZXCVBNM"@]
}

/// One key: a dark square of side `kw` at (`kx`, `ky`) with a grey outline and its letter
/// in white, centred, at scale 2.
pub open spec fn key_canvas(cv: Canvas, kx: int, ky: int, kw: int, ch: char) -> Canvas {
    let m = muted_word();
    cv.fill_rect(kx, ky, kw, kw, rgb_word(0x14, 0x22, 0x3a) as u32).fill_rect(kx, ky, kw, 1, m).fill_rect(
        kx,
        ky + kw - 1,
        kw,
        1,
        m,
    ).fill_rect(kx, ky, 1, kw, m).fill_rect(kx + kw - 1, ky, 1, kw, m).text(
        kx + (kw - 16) / 2,
        ky + (kw - 16) / 2,
        seq![ch],
        white_word(),
        2,
    )
}

/// The first `n` keys of `row`, from (`kx0`, `ky`), `kw + 2` pixels apart.
pub open spec fn key_row_canvas(cv: Canvas, row: Seq<char>, n: nat, kx0: int, ky: int, kw: int) -> Canvas
    decreases n,
{
    if n == 0 {
        cv
    } else {
        key_canvas(
            key_row_canvas(cv, row, (n - 1) as nat, kx0, ky, kw),
            kx0 + (n - 1) * (kw + 2),
            ky,
            kw,
            row[n - 1],
        )
    }
}

/// Left edge of letter row `i` of the keyboard picture in the `w` wide area at `x`: rows are
/// centred and shifted right by half a key per row.
pub open spec fn key_row_x(x: int, w: int, kw: int, i: int) -> int {
    x + i * (kw / 2) + (w - key_rows()[i].len() * (kw + 2)) / 2
}

/// The first `n` letter rows of the keyboard picture in the `w` wide area at (`x`, `y`),
/// with keys of side `w / 11` (at least 20).
pub open spec fn keyboard_rows_canvas(cv: Canvas, x: int, y: int, w: int, n: nat) -> Canvas
    decreases n,
{
    if n == 0 {
        cv
    } else {
        let kw = if w / 11 >= 20 { w / 11 } else { 20 };
        let i = n - 1;
        key_row_canvas(
            keyboard_rows_canvas(cv, x, y, w, (n - 1) as nat),
            key_rows()[i],
            key_rows()[i].len(),
            key_row_x(x, w, kw, i),
            y + i * (kw + 4),
            kw,
        )
    }
}

/// Text of one character drawn is that character drawn.
proof fn lemma_one_char_text(cv: Canvas, x: int, y: int, ch: char, fg: u32, s: int)
    ensures
        cv.text(x, y, seq![ch], fg, s) == cv.draw_char(x, y, ch, fg, s),
{
    lemma_text_zero(cv, x, y, seq![ch], fg, s);
    lemma_text_step(cv, x, y, seq![ch], fg, s, 0);
}

/// Where the keys of the picture lie, for a `w` wide area with `w >= 220`.
proof fn lemma_key_layout(w: int, kw: int, i: int, j: int)
    requires
        w >= 220,
        kw == w / 11,
        0 <= i < 3,
        0 <= j <= key_rows()[i].len(),
    ensures
        kw >= 20,
        1 <= key_rows()[i].len() <= 10,
        key_rows()[i].len() * (kw + 2) <= w,
        i * (kw / 2) + (w - key_rows()[i].len() * (kw + 2)) / 2 + j * (kw + 2) <= w + kw,
        i * (kw + 4) + kw <= w,
        (i + 1) * (kw + 4) == i * (kw + 4) + kw + 4,
        (j + 1) * (kw + 2) == j * (kw + 2) + kw + 2,
{
    reveal_strlit("QWERTYUIOP");
    reveal_strlit("ASDFGHJKL");
    reveal_strlit("ZXCVBNM");
    let n = key_rows()[i].len();
    assert(j * (kw + 2) <= n * (kw + 2)) by (nonlinear_arith)
        requires
            j <= n,
            kw >= 0,
    ;
    assert(n * (kw + 2) <= 10 * (kw + 2)) by (nonlinear_arith)
        requires
            n <= 10,
            kw >= 0,
    ;
    assert(i * (kw / 2) <= 2 * (kw / 2)) by (nonlinear_arith)
        requires
            i < 3,
            kw >= 0,
    ;
    assert(i * (kw + 4) <= 2 * (kw + 4)) by (nonlinear_arith)
        requires
            i < 3,
            kw >= 0,
    ;
    assert((i + 1) * (kw + 4) == i * (kw + 4) + kw + 4) by (nonlinear_arith);
    assert((j + 1) * (kw + 2) == j * (kw + 2) + kw + 2) by (nonlinear_arith);
    let a = n * (kw + 2);
}

/// Draws the keyboard picture in the `w` wide area at (`x`, `y`).
fn draw_keyboard_visual(fb: &mut Framebuffer, x: u32, y: u32, w: u32)
    requires
        old(fb)@.wf(),
        w >= 220,
        x + 2 * w + 64 <= u32::MAX,
        y + w + 64 <= u32::MAX,
    ensures
        final(fb)@ == keyboard_rows_canvas(old(fb)@, x as int, y as int, w as int, 3),
        final(fb)@.wf(),
{
    let ghost start = fb@;
    // A simplified QWERTY, three rows.
    let rows = ["QWERTYUIOP", "ASDFGHJKL", "ZXCVBNM"];
    proof {
        reveal_strlit("QWERTYUIOP");
        reveal_strlit("ASDFGHJKL");
        reveal_strlit("ZXCVBNM");
    }
    let key_w = if w / 11 >= 20 {
        w / 11
    } else {
        20
    };
    let key_h = key_w;
    let mut row_y = y;
    let mut i: usize = 0;
    while i < 3
        invariant
            0 <= i <= 3,
            fb@.wf(),
            w >= 220,
            x + 2 * w + 64 <= u32::MAX,
            y + w + 64 <= u32::MAX,
            key_w == w / 11,
            key_h == key_w,
            row_y == y + i * (key_w + 4),
            forall|k: int| 0 <= k < 3 ==> (#[trigger] rows@[k])@ == key_rows()[k],
            fb@ == keyboard_rows_canvas(start, x as int, y as int, w as int, i as nat),
        decreases 3 - i,
    {
        let row = rows[i];
        let n = row.unicode_len();
        proof {
            lemma_key_layout(w as int, key_w as int, i as int, 0);
        }
        let row_w = (n as u32) * (key_w + 2);
        let offset = (i as u32) * (key_w / 2);
        let mut kx = x + offset + (w - row_w) / 2;
        let ghost before = fb@;
        let mut j: usize = 0;
        while j < n
            invariant
                0 <= i < 3,
                0 <= j <= n,
                n == key_rows()[i as int].len(),
                row@ == key_rows()[i as int],
                fb@.wf(),
                w >= 220,
                x + 2 * w + 64 <= u32::MAX,
                y + w + 64 <= u32::MAX,
                key_w == w / 11,
                key_h == key_w,
                row_y == y + i * (key_w + 4),
                kx == key_row_x(x as int, w as int, key_w as int, i as int) + j * (key_w + 2),
                fb@ == key_row_canvas(before, row@, j as nat, key_row_x(x as int, w as int, key_w as int, i as int), row_y as int, key_w as int),
            decreases n - j,
        {
            proof {
                lemma_key_layout(w as int, key_w as int, i as int, j as int);
                lemma_key_layout(w as int, key_w as int, i as int, j + 1);
            }
            let ch = row.get_char(j);
            fb.fill_rect(kx, row_y, key_w, key_h, Color::rgb(0x14, 0x22, 0x3a));
            fb.hline(kx, row_y, key_w, Color::muted());
            fb.hline(kx, row_y + key_h - 1, key_w, Color::muted());
            fb.vline(kx, row_y, key_h, Color::muted());
            fb.vline(kx + key_w - 1, row_y, key_h, Color::muted());
            let ghost pre_text = fb@;
            proof {
                lemma_one_char_text(pre_text, kx + (key_w - 16) / 2, row_y + (key_h - 16) / 2, ch, white_word(), 2);
            }
            fb.draw_char(kx + (key_w - 16) / 2, row_y + (key_h - 16) / 2, ch, Color::white(), 2);
            kx += key_w + 2;
            j += 1;
        }
        row_y += key_h + 4;
        i += 1;
    }
}

/// What the typing box shows: a hint while nothing is typed, else `> ` and the typed text.
pub open spec fn typed_display(typed: Seq<char>) -> Seq<char> {
    if typed.len() == 0 {
        "(klaviaturadan yozing)"@
    } else {
        "> "@ + typed
    }
}

/// The keyboard tester in the `w` wide area at (`x`, `y`): title, the typing box with what
/// was typed, event and pointer figures, and on a wide area (at least 500 pixels) a
/// keyboard picture.
pub open spec fn keyboard_canvas(
    cv: Canvas,
    typed: Seq<char>,
    event_count: u32,
    cursor_x: i32,
    cursor_y: i32,
    x: int,
    y: int,
    w: int,
) -> Canvas {
    let big = w >= 500;
    let scale = if big { 3int } else { 2 };
    let box_x = x + 16;
    let box_y = y + if big { 110int } else { 80 };
    let box_w = sat_sub(w, 32);
    let box_h = if big { 36int } else { 28 };
    let fg = zamin_fg_word();
    let c1 = cv.text(x + 16, y + 14, "Keyboard"@, fg, scale).text(
        x + 16,
        y + if big { 80int } else { 60 },
        "Yozilgan matn:"@,
        white_word(),
        if big { 2int } else { 1 },
    );
    let c2 = c1.fill_rect(box_x, box_y, box_w, box_h, rgb_word(0x06, 0x0e, 0x1a) as u32).fill_rect(
        box_x,
        box_y,
        box_w,
        1,
        fg,
    ).fill_rect(box_x, box_y + box_h - 1, box_w, 1, fg).fill_rect(box_x, box_y, 1, box_h, fg).fill_rect(
        box_x + box_w - 1,
        box_y,
        1,
        box_h,
        fg,
    );
    let c3 = c2.text(
        box_x + 8,
        box_y + (box_h - 16) / 2,
        typed_display(typed),
        if typed.len() == 0 { muted_word() } else { white_word() },
        if big { 2int } else { 1 },
    );
    let stats_y = box_y + box_h + 16;
    let c4 = c3.text(x + 16, stats_y, "Events: "@ + decimal(event_count as nat), accent_word(), 1).text(
        x + 16,
        stats_y + 16,
        "Pointer: ("@ + signed_decimal(cursor_x as int) + ", "@ + signed_decimal(cursor_y as int)
            + ")"@,
        accent_word(),
        1,
    );
    if big {
        keyboard_rows_canvas(c4, x + 16, stats_y + 50, box_w, 3)
    } else {
        c4
    }
}

/// Draws the keyboard tester in the `w` x `h` area at (`x`, `y`).
pub fn draw(shell: &Shell, fb: &mut Framebuffer, x: u32, y: u32, w: u32, _h: u32)
    requires
        old(fb)@.wf(),
        x + 2 * w + 1024 + 16 * shell.typed@.len() <= u32::MAX,
        y + w + 1024 <= u32::MAX,
    ensures
        final(fb)@ == keyboard_canvas(
            old(fb)@,
            shell.typed@,
            shell.event_count,
            shell.cursor_x,
            shell.cursor_y,
            x as int,
            y as int,
            w as int,
        ),
        final(fb)@.wf(),
{
    proof {
        reveal_strlit("Keyboard");
        reveal_strlit("Yozilgan matn:");
        reveal_strlit("(klaviaturadan yozing)");
        reveal_strlit("> ");
        reveal_strlit("Events: ");
        reveal_strlit("Pointer: (");
        reveal_strlit(", ");
        reveal_strlit(")");
        crate::text::lemma_decimal_len_u64(shell.event_count as u64);
        crate::text::lemma_decimal_len_u64(if shell.cursor_x < 0 { (-(shell.cursor_x as int)) as u64 } else { shell.cursor_x as u64 });
        crate::text::lemma_decimal_len_u64(if shell.cursor_y < 0 { (-(shell.cursor_y as int)) as u64 } else { shell.cursor_y as u64 });
    }
    let big = w >= 500;
    let scale: u32 = if big {
        3
    } else {
        2
    };

    fb.draw_text(x + 16, y + 14, "Keyboard", Color::zamin_fg(), scale);

    fb.draw_text(
        x + 16,
        y + if big {
            80
        } else {
            60
        },
        "Yozilgan matn:",
        Color::white(),
        if big {
            2
        } else {
            1
        },
    );

    // Typing box
    let box_x = x + 16;
    let box_y = y + if big {
        110
    } else {
        80
    };
    let box_w = w.saturating_sub(32);
    let box_h: u32 = if big {
        36
    } else {
        28
    };
    fb.fill_rect(box_x, box_y, box_w, box_h, Color::rgb(0x06, 0x0e, 0x1a));
    fb.hline(box_x, box_y, box_w, Color::zamin_fg());
    fb.hline(box_x, box_y + box_h - 1, box_w, Color::zamin_fg());
    fb.vline(box_x, box_y, box_h, Color::zamin_fg());
    fb.vline(box_x + box_w - 1, box_y, box_h, Color::zamin_fg());

    let empty = shell.typed.as_str().is_empty();
    let display = if empty {
        string_of("(klaviaturadan yozing)")
    } else {
        let mut d = string_of("> ");
        push_str(&mut d, shell.typed.as_str());
        d
    };
    let color = if empty {
        Color::muted()
    } else {
        Color::white()
    };
    let txt_scale: u32 = if big {
        2
    } else {
        1
    };
    fb.draw_text(box_x + 8, box_y + (box_h - 16) / 2, display.as_str(), color, txt_scale);

    // Figures
    let stats_y = box_y + box_h + 16;
    let mut events = string_of("Events: ");
    push_decimal(&mut events, shell.event_count as u64);
    fb.draw_text(x + 16, stats_y, events.as_str(), Color::accent(), 1);
    let mut pointer = string_of("Pointer: (");
    push_signed_decimal(&mut pointer, shell.cursor_x);
    push_str(&mut pointer, ", ");
    push_signed_decimal(&mut pointer, shell.cursor_y);
    push_str(&mut pointer, ")");
    fb.draw_text(x + 16, stats_y + 16, pointer.as_str(), Color::accent(), 1);

    // The keyboard picture
    if big {
        draw_keyboard_visual(fb, x + 16, stats_y + 50, w.saturating_sub(32));
    }
}

} // verus!
