//! Clock app: an analog dial with hands and a digital readout.
//!
//! The ends of the tick marks and hands come from angles, which the caller works out in
//! floating point (`DialMarks`); everything else, from the dial's size to the drawing,
//! is computed here.

use vstd::prelude::*;
use crate::graphics::framebuffer::{
    Canvas, Color, Framebuffer, accent_word, muted_word, rgb_word, white_word, zamin_fg_word,
};
use crate::graphics::raster::{MAX_SPAN, abs, circle_canvas, circle_walk, line_canvas, octants, plot, walk_line};
use crate::text::{decimal, decimal2, push_decimal2, push_signed_decimal, push_str, signed_decimal};
use crate::ui::Shell;
use crate::ui::apps::welcome::sat_sub;
use vstd::string::StrSliceExecFns;

verus! {

/// Draws the Bresenham line from (`x0`, `y0`) to (`x1`, `y1`); points off the screen are skipped.
pub fn line(fb: &mut Framebuffer, x0: i32, y0: i32, x1: i32, y1: i32, color: Color)
    requires
        old(fb)@.wf(),
        abs(x1 - x0) <= MAX_SPAN,
        abs(y1 - y0) <= MAX_SPAN,
    ensures
        final(fb)@ == line_canvas(
            old(fb)@,
            x0 as int,
            y0 as int,
            x1 as int,
            y1 as int,
            (0, 0, old(fb)@.width as int, old(fb)@.height as int),
            color.0,
        ),
        final(fb)@.width == old(fb)@.width,
        final(fb)@.height == old(fb)@.height,
        final(fb)@.wf(),
{
    let w = fb.width();
    let h = fb.height();
    walk_line(fb, x0, y0, x1, y1, color, 0, 0, w, h);
}

/// Offset `k` (0..9) of the nine copies of a thick line: x outer, y inner, each in -1..=1.
pub open spec fn thick_offset(k: int) -> (int, int) {
    (k / 3 - 1, k % 3 - 1)
}

/// The first `n` of the nine shifted copies of the line from (`x0`, `y0`) to (`x1`, `y1`),
/// clipped to `clip`.
pub open spec fn thick_walk(
    cv: Canvas,
    x0: int,
    y0: int,
    x1: int,
    y1: int,
    clip: (int, int, int, int),
    c: u32,
    n: nat,
) -> Canvas
    decreases n,
{
    if n == 0 {
        cv
    } else {
        let prev = thick_walk(cv, x0, y0, x1, y1, clip, c, (n - 1) as nat);
        let (ox, oy) = thick_offset(n - 1);
        line_canvas(prev, x0 + ox, y0 + oy, x1 + ox, y1 + oy, clip, c)
    }
}

/// The line from (`x0`, `y0`) to (`x1`, `y1`) drawn three pixels thick: nine copies shifted
/// by -1, 0, 1 along each axis.
pub open spec fn thick_line_canvas(cv: Canvas, x0: int, y0: int, x1: int, y1: int, c: u32) -> Canvas {
    thick_walk(cv, x0, y0, x1, y1, (0, 0, cv.width as int, cv.height as int), c, 9)
}

/// Draws the line from (`x0`, `y0`) to (`x1`, `y1`) three pixels thick.
pub fn thick_line(fb: &mut Framebuffer, x0: i32, y0: i32, x1: i32, y1: i32, color: Color)
    requires
        old(fb)@.wf(),
        abs(x1 - x0) <= MAX_SPAN,
        abs(y1 - y0) <= MAX_SPAN,
        i32::MIN < x0 < i32::MAX,
        i32::MIN < y0 < i32::MAX,
        i32::MIN < x1 < i32::MAX,
        i32::MIN < y1 < i32::MAX,
    ensures
        final(fb)@ == thick_line_canvas(old(fb)@, x0 as int, y0 as int, x1 as int, y1 as int, color.0),
        final(fb)@.wf(),
{
    let ghost start = fb@;
    let mut dx: i32 = -1;
    while dx <= 1
        invariant
            -1 <= dx <= 2,
            fb@.wf(),
            fb@.width == start.width,
            fb@.height == start.height,
            abs(x1 - x0) <= MAX_SPAN,
            abs(y1 - y0) <= MAX_SPAN,
            i32::MIN < x0 < i32::MAX,
            i32::MIN < y0 < i32::MAX,
            i32::MIN < x1 < i32::MAX,
            i32::MIN < y1 < i32::MAX,
            fb@ == thick_walk(start, x0 as int, y0 as int, x1 as int, y1 as int, (0, 0, start.width as int, start.height as int), color.0, ((dx + 1) * 3) as nat),
        decreases 2 - dx,
    {
        let mut dy: i32 = -1;
        while dy <= 1
            invariant
                -1 <= dx <= 1,
                -1 <= dy <= 2,
                fb@.wf(),
                fb@.width == start.width,
                fb@.height == start.height,
                abs(x1 - x0) <= MAX_SPAN,
                abs(y1 - y0) <= MAX_SPAN,
                i32::MIN < x0 < i32::MAX,
                i32::MIN < y0 < i32::MAX,
                i32::MIN < x1 < i32::MAX,
                i32::MIN < y1 < i32::MAX,
                fb@ == thick_walk(start, x0 as int, y0 as int, x1 as int, y1 as int, (0, 0, start.width as int, start.height as int), color.0, ((dx + 1) * 3 + dy + 1) as nat),
            decreases 2 - dy,
        {
            proof {
                let k = (dx + 1) * 3 + dy + 1;
            }
            line(fb, x0 + dx, y0 + dy, x1 + dx, y1 + dy, color);
            dy += 1;
        }
        dx += 1;
    }
}

/// Sets pixel (`px`, `py`) when it is on the screen.
fn put_on_screen(fb: &mut Framebuffer, px: i32, py: i32, color: Color)
    requires
        old(fb)@.wf(),
    ensures
        final(fb)@ == plot(old(fb)@, px as int, py as int, (0, 0, old(fb)@.width as int, old(fb)@.height as int), color.0),
        final(fb)@.wf(),
{
    let w = fb.width();
    let h = fb.height();
    if px >= 0 && (px as u32) < w && py >= 0 && (py as u32) < h {
        fb.put(px as u32, py as u32, color);
    }
}

/// Draws the midpoint circle of radius `r` around (`cx`, `cy`); points off the screen are skipped.
pub fn draw_circle(fb: &mut Framebuffer, cx: i32, cy: i32, r: u32, color: Color)
    requires
        old(fb)@.wf(),
        r <= MAX_SPAN,
        i32::MIN <= cx - r - 1,
        cx + r + 1 <= i32::MAX,
        i32::MIN <= cy - r - 1,
        cy + r + 1 <= i32::MAX,
    ensures
        final(fb)@ == circle_canvas(
            old(fb)@,
            cx as int,
            cy as int,
            r as int,
            (0, 0, old(fb)@.width as int, old(fb)@.height as int),
            color.0,
        ),
        final(fb)@.wf(),
{
    let ghost start = fb@;
    let ghost clip = (0int, 0int, start.width as int, start.height as int);
    let ghost target = circle_canvas(start, cx as int, cy as int, r as int, clip, color.0);
    let mut x = r as i32;
    let mut y = 0i32;
    let mut err = 0i32;
    let ghost mut fuel: nat = (r + 1) as nat;
    while x >= y
        invariant
            fb@.wf(),
            fb@.width == start.width,
            fb@.height == start.height,
            clip == (0int, 0int, start.width as int, start.height as int),
            r <= MAX_SPAN,
            i32::MIN <= cx - r - 1,
            cx + r + 1 <= i32::MAX,
            i32::MIN <= cy - r - 1,
            cy + r + 1 <= i32::MAX,
            0 <= y <= r + 1,
            -1 <= x <= r,
            x >= y ==> -(2 * x + 1) <= err <= 2 * y + 1,
            x >= y ==> fuel >= x - y + 1,
            target == circle_walk(fb@, cx as int, cy as int, x as int, y as int, err as int, clip, color.0, fuel),
        decreases x - y + 2,
    {
        put_on_screen(fb, cx + x, cy + y, color);
        put_on_screen(fb, cx + y, cy + x, color);
        put_on_screen(fb, cx - y, cy + x, color);
        put_on_screen(fb, cx - x, cy + y, color);
        put_on_screen(fb, cx - x, cy - y, color);
        put_on_screen(fb, cx - y, cy - x, color);
        put_on_screen(fb, cx + y, cy - x, color);
        put_on_screen(fb, cx + x, cy - y, color);
        if err <= 0 {
            y += 1;
            err += 2 * y + 1;
        }
        if err > 0 {
            x -= 1;
            err -= 2 * x + 1;
        }
        proof {
            fuel = (fuel - 1) as nat;
        }
    }
}

/// `a / b` rounded towards zero, as Rust's `/` on signed integers.
pub open spec fn trunc_div(a: int, b: int) -> int {
    if a >= 0 {
        a / b
    } else {
        -((-a) / b)
    }
}

/// The remainder of `trunc_div`, with the sign of `a`, as Rust's `%` on signed integers.
pub open spec fn trunc_rem(a: int, b: int) -> int {
    a - b * trunc_div(a, b)
}

/// The uptime read as a signed 32-bit count of seconds.
pub open spec fn signed_ticks(uptime: u32) -> int {
    if uptime <= i32::MAX {
        uptime as int
    } else {
        uptime - 0x1_0000_0000
    }
}

/// Hours (0..12), minutes and seconds of the uptime, each with the sign of the count.
pub open spec fn clock_time_spec(uptime: u32) -> (int, int, int) {
    let t = signed_ticks(uptime);
    (trunc_rem(trunc_div(t, 3600), 12), trunc_rem(trunc_div(t, 60), 60), trunc_rem(t, 60))
}

/// Hours (0..12), minutes and seconds shown for an uptime of `uptime` seconds.
pub fn clock_time(uptime: u32) -> (t: (i32, i32, i32))
    ensures
        (t.0 as int, t.1 as int, t.2 as int) == clock_time_spec(uptime),
{
    if uptime <= 0x7fff_ffff {
        ((uptime / 3600 % 12) as i32, (uptime / 60 % 60) as i32, (uptime % 60) as i32)
    } else {
        let n: u32 = (0x1_0000_0000u64 - uptime as u64) as u32;
        (-((n / 3600 % 12) as i32), -((n / 60 % 60) as i32), -((n % 60) as i32))
    }
}

/// `v` printed at least two characters wide, zero-padded: `{:02}`.
pub open spec fn pad2(v: int) -> Seq<char> {
    if v < 0 {
        signed_decimal(v)
    } else {
        decimal2(v as nat)
    }
}

/// The digital readout `hh:mm:ss`.
pub open spec fn digital_text(t: (int, int, int)) -> Seq<char> {
    pad2(t.0) + seq![':'] + pad2(t.1) + seq![':'] + pad2(t.2)
}

/// Appends `v` as `{:02}` prints it.
fn push_pad2(s: &mut String, v: i32)
    requires
        -60 < v < 60,
    ensures
        final(s)@ == old(s)@ + pad2(v as int),
        pad2(v as int).len() <= 3,
{
    if v < 0 {
        push_signed_decimal(s, v);
    } else {
        push_decimal2(s, v as u64);
    }
    proof {
        reveal_with_fuel(decimal, 2);
    }
}

/// The centre and radius of the dial in the `w` x `h` area at (`x`, `y`): below a
/// 22-pixel title bar, 16 pixels inside the smaller side.
pub open spec fn dial_spec(x: int, y: int, w: int, h: int) -> (int, int, int) {
    (x + w / 2, y + 22 + (h - 22) / 2, (if w <= h - 22 { w } else { h - 22 }) / 2 - 16)
}

/// The centre and radius of the dial.
pub fn dial(x: u32, y: u32, w: u32, h: u32) -> (d: (i32, i32, i32))
    requires
        h >= 22,
        (if w <= h - 22 { w as int } else { h - 22 }) / 2 >= 16,
        x + w <= i32::MAX,
        y + h <= i32::MAX,
    ensures
        (d.0 as int, d.1 as int, d.2 as int) == dial_spec(x as int, y as int, w as int, h as int),
{
    let side = if w <= h - 22 {
        w
    } else {
        h - 22
    };
    ((x + w / 2) as i32, (y + 22 + (h - 22) / 2) as i32, (side / 2 - 16) as i32)
}

/// Where the twelve tick marks and the three hands end, worked out from their angles by
/// the caller. A tick runs from (`.0`, `.1`) to (`.2`, `.3`); a hand runs from the centre.
pub struct DialMarks {
    pub ticks: [(i32, i32, i32, i32); 12],
    pub hour: (i32, i32),
    pub minute: (i32, i32),
    pub second: (i32, i32),
}

/// Whether every mark is short enough to walk and every thick hand can be shifted by a
/// pixel either way.
pub open spec fn marks_fit(m: DialMarks, cx: int, cy: int) -> bool {
    &&& forall|i: int|
        0 <= i < 12 ==> abs((#[trigger] m.ticks@[i]).2 - m.ticks@[i].0) <= MAX_SPAN && abs(
            m.ticks@[i].3 - m.ticks@[i].1,
        ) <= MAX_SPAN
    &&& abs(m.hour.0 - cx) <= MAX_SPAN && abs(m.hour.1 - cy) <= MAX_SPAN
    &&& i32::MIN < m.hour.0 < i32::MAX && i32::MIN < m.hour.1 < i32::MAX
    &&& abs(m.minute.0 - cx) <= MAX_SPAN && abs(m.minute.1 - cy) <= MAX_SPAN
    &&& i32::MIN < m.minute.0 < i32::MAX && i32::MIN < m.minute.1 < i32::MAX
    &&& abs(m.second.0 - cx) <= MAX_SPAN && abs(m.second.1 - cy) <= MAX_SPAN
}

/// The screen clip of `cv`.
pub open spec fn screen(cv: Canvas) -> (int, int, int, int) {
    (0, 0, cv.width as int, cv.height as int)
}

/// The first `n` tick marks drawn in grey.
pub open spec fn ticks_canvas(cv: Canvas, ticks: Seq<(i32, i32, i32, i32)>, n: nat) -> Canvas
    decreases n,
{
    if n == 0 {
        cv
    } else {
        let prev = ticks_canvas(cv, ticks, (n - 1) as nat);
        let t = ticks[n - 1];
        line_canvas(prev, t.0 as int, t.1 as int, t.2 as int, t.3 as int, screen(prev), muted_word())
    }
}

/// The dial of radius `r` at (`cx`, `cy`): a double ring, a centre dot, the numerals
/// 12, 3, 6 and 9, the tick marks, the hour and minute hands drawn thick and the second
/// hand drawn thin.
pub open spec fn dial_canvas(cv: Canvas, cx: int, cy: int, r: int, m: DialMarks) -> Canvas {
    let c1 = circle_canvas(cv, cx, cy, r, screen(cv), zamin_fg_word());
    let c2 = circle_canvas(c1, cx, cy, r - 1, screen(c1), zamin_fg_word());
    let c3 = c2.fill_rect(cx - 2, cy - 2, 5, 5, zamin_fg_word());
    let c4 = c3.text(cx - 6, cy - r + 4, "12"@, white_word(), 1);
    let c5 = c4.text(cx + r - 12, cy - 4, "3"@, white_word(), 1);
    let c6 = c5.text(cx - 4, cy + r - 14, "6"@, white_word(), 1);
    let c7 = c6.text(cx - r + 6, cy - 4, "9"@, white_word(), 1);
    let c8 = ticks_canvas(c7, m.ticks@, 12);
    let c9 = thick_line_canvas(c8, cx, cy, m.hour.0 as int, m.hour.1 as int, zamin_fg_word());
    let c10 = thick_line_canvas(c9, cx, cy, m.minute.0 as int, m.minute.1 as int, white_word());
    line_canvas(c10, cx, cy, m.second.0 as int, m.second.1 as int, screen(c10), accent_word())
}

/// The clock in the `w` x `h` area at (`x`, `y`) for an uptime of `uptime` seconds: a
/// title bar, then the dial with the digital time centred under it; when the dial would
/// be smaller than radius 30, a note that there is too little room instead.
pub open spec fn clock_canvas(cv: Canvas, uptime: u32, x: int, y: int, w: int, h: int, m: DialMarks) -> Canvas {
    let c1 = cv.fill_rect(x, y, w, 22, rgb_word(0x14, 0x22, 0x3a) as u32);
    let c2 = c1.text(x + 8, y + 6, "Clock"@, zamin_fg_word(), 1);
    let (cx, cy, r) = dial_spec(x, y, w, h);
    if r < 30 {
        c2.text(x + 6, y + 30, "Juda kichik joy"@, muted_word(), 1)
    } else {
        let c3 = dial_canvas(c2, cx, cy, r, m);
        let digital = digital_text(clock_time_spec(uptime));
        c3.text(sat_sub(x + w / 2, (digital.len() * 8 / 2) as int), y + h - 18, digital, accent_word(), 1)
    }
}

/// Draws the clock in the `w` x `h` area at (`x`, `y`), its marks ending where `marks` says.
pub fn draw(shell: &Shell, fb: &mut Framebuffer, x: u32, y: u32, w: u32, h: u32, marks: &DialMarks)
    requires
        old(fb)@.wf(),
        h >= 22,
        (if w <= h - 22 { w as int } else { h - 22 }) / 2 >= 16,
        x + w + 1024 <= i32::MAX,
        y + h + 1024 <= i32::MAX,
        w <= MAX_SPAN,
        dial_spec(x as int, y as int, w as int, h as int).2 >= 30 ==> marks_fit(
            *marks,
            dial_spec(x as int, y as int, w as int, h as int).0,
            dial_spec(x as int, y as int, w as int, h as int).1,
        ),
    ensures
        final(fb)@ == clock_canvas(old(fb)@, shell.uptime_ticks, x as int, y as int, w as int, h as int, *marks),
        final(fb)@.wf(),
{
    proof {
        reveal_strlit("Clock");
        reveal_strlit("Juda kichik joy");
        reveal_strlit("12");
        reveal_strlit("3");
        reveal_strlit("6");
        reveal_strlit("9");
    }
    fb.fill_rect(x, y, w, 22, Color::rgb(0x14, 0x22, 0x3a));
    fb.draw_text(x + 8, y + 6, "Clock", Color::zamin_fg(), 1);

    let (cx, cy, r) = dial(x, y, w, h);
    if r < 30 {
        fb.draw_text(x + 6, y + 30, "Juda kichik joy", Color::muted(), 1);
        return;
    }
    // outer ring
    draw_circle(fb, cx, cy, r as u32, Color::zamin_fg());
    draw_circle(fb, cx, cy, (r - 1) as u32, Color::zamin_fg());
    // centre
    fb.fill_rect((cx - 2) as u32, (cy - 2) as u32, 5, 5, Color::zamin_fg());
    // numerals 12, 3, 6, 9
    fb.draw_text((cx - 6) as u32, (cy - r + 4) as u32, "12", Color::white(), 1);
    fb.draw_text((cx + r - 12) as u32, (cy - 4) as u32, "3", Color::white(), 1);
    fb.draw_text((cx - 4) as u32, (cy + r - 14) as u32, "6", Color::white(), 1);
    fb.draw_text((cx - r + 6) as u32, (cy - 4) as u32, "9", Color::white(), 1);
    let ghost c7 = fb@;
    // tick marks
    let mut i: usize = 0;
    while i < 12
        invariant
            0 <= i <= 12,
            fb@.wf(),
            forall|j: int|
                0 <= j < 12 ==> abs((#[trigger] marks.ticks@[j]).2 - marks.ticks@[j].0) <= MAX_SPAN
                    && abs(marks.ticks@[j].3 - marks.ticks@[j].1) <= MAX_SPAN,
            fb@ == ticks_canvas(c7, marks.ticks@, i as nat),
        decreases 12 - i,
    {
        let t = marks.ticks[i];
        line(fb, t.0, t.1, t.2, t.3, Color::muted());
        i += 1;
    }
    // hands
    thick_line(fb, cx, cy, marks.hour.0, marks.hour.1, Color::zamin_fg());
    thick_line(fb, cx, cy, marks.minute.0, marks.minute.1, Color::white());
    line(fb, cx, cy, marks.second.0, marks.second.1, Color::accent());
    // digital readout
    let (hh, m, s) = clock_time(shell.uptime_ticks);
    let mut digital = String::new();
    push_pad2(&mut digital, hh);
    push_str(&mut digital, ":");
    push_pad2(&mut digital, m);
    push_str(&mut digital, ":");
    push_pad2(&mut digital, s);
    proof {
        reveal_strlit(":");
        assert(digital@ =~= digital_text(clock_time_spec(shell.uptime_ticks)));
    }
    let n = digital.as_str().unicode_len() as u32;
    let dx = (x + w / 2).saturating_sub((n * 8) / 2);
    fb.draw_text(dx, y + h - 18, digital.as_str(), Color::accent(), 1);
}

/// For an uptime that reads as a non-negative count, the clock shows the time of day on a
/// twelve-hour dial: hours below 12, minutes and seconds below 60, together making up the
/// uptime modulo twelve hours, and the readout is eight characters `hh:mm:ss`.
pub proof fn law_clock_time_of_day(uptime: u32)
    requires
        uptime <= i32::MAX,
    ensures
        ({
            let (hh, m, s) = clock_time_spec(uptime);
            &&& 0 <= hh < 12
            &&& 0 <= m < 60
            &&& 0 <= s < 60
            &&& hh * 3600 + m * 60 + s == uptime % 43200
            &&& digital_text((hh, m, s)).len() == 8
        }),
{
    let t = uptime as int;
    let (hh, m, s) = clock_time_spec(uptime);
    assert(hh * 3600 + m * 60 + s == t % 43200) by (nonlinear_arith)
        requires
            t >= 0,
            hh == (t / 3600) % 12,
            m == (t / 60) % 60,
            s == t % 60,
    {
        assert(t / 60 == 60 * (t / 3600) + m) by {
            assert(t / 3600 == (t / 60) / 60) by {
                vstd::arithmetic::div_mod::lemma_div_denominator(t, 60, 60);
            }
        }
        assert(t / 3600 == 12 * (t / 43200) + hh) by {
            assert(t / 43200 == (t / 3600) / 12) by {
                vstd::arithmetic::div_mod::lemma_div_denominator(t, 3600, 12);
            }
        }
    }
    reveal_with_fuel(decimal, 2);
}

/// The hour written at quarter `k` of the dial, counting clockwise from the top: 12, 3, 6, 9.
pub open spec fn quarter_hour(k: int) -> int {
    if k == 0 {
        12
    } else {
        3 * k
    }
}

/// The dial writes each quarter's hour in the white numerals of that quarter: 12 at the
/// top (above the centre), 3 at the right, 6 at the bottom and 9 at the left; rings and
/// centre dot come first, the tick marks and hands over them.
pub proof fn law_dial_numerals(cv: Canvas, cx: int, cy: int, r: int, m: DialMarks)
    requires
        r >= 30,
    ensures
        ({
            let c1 = circle_canvas(cv, cx, cy, r, screen(cv), zamin_fg_word());
            let c2 = circle_canvas(c1, cx, cy, r - 1, screen(c1), zamin_fg_word());
            let face = c2.fill_rect(cx - 2, cy - 2, 5, 5, zamin_fg_word());
            let top = face.text(cx - 6, cy - r + 4, decimal(quarter_hour(0) as nat), white_word(), 1);
            let right = top.text(cx + r - 12, cy - 4, decimal(quarter_hour(1) as nat), white_word(), 1);
            let bottom = right.text(cx - 4, cy + r - 14, decimal(quarter_hour(2) as nat), white_word(), 1);
            let left = bottom.text(cx - r + 6, cy - 4, decimal(quarter_hour(3) as nat), white_word(), 1);
            let c8 = ticks_canvas(left, m.ticks@, 12);
            let c9 = thick_line_canvas(c8, cx, cy, m.hour.0 as int, m.hour.1 as int, zamin_fg_word());
            let c10 = thick_line_canvas(c9, cx, cy, m.minute.0 as int, m.minute.1 as int, white_word());
            &&& dial_canvas(cv, cx, cy, r, m) == line_canvas(
                c10,
                cx,
                cy,
                m.second.0 as int,
                m.second.1 as int,
                screen(c10),
                accent_word(),
            )
            &&& cy - r + 4 + 8 <= cy && cy + r - 14 > cy
            &&& cx + r - 12 > cx && cx - r + 6 + 8 <= cx
        }),
{
    reveal_with_fuel(decimal, 2);
    reveal_strlit("12");
    reveal_strlit("3");
    reveal_strlit("6");
    reveal_strlit("9");
    assert(decimal(12) =~= "12"@);
    assert(decimal(3) =~= "3"@);
    assert(decimal(6) =~= "6"@);
    assert(decimal(9) =~= "9"@);
}

} // verus!
