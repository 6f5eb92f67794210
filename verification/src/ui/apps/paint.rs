//! Paint app: drawing with the pointer.

use vstd::prelude::*;
use crate::graphics::framebuffer::{Canvas, Color, Framebuffer, muted_word, rgb_word, white_word, zamin_fg_word};
use crate::graphics::raster::{MAX_SPAN, abs, line_canvas, walk_line};
use crate::ui::Shell;
use crate::ui::apps::clock::{thick_offset, thick_walk};

verus! {

/// A line drawn by one pointer move.
#[derive(Clone, Copy, PartialEq, Eq, Structural, Debug)]
pub struct Stroke {
    pub x0: i32,
    pub y0: i32,
    pub x1: i32,
    pub y1: i32,
    pub color: u32,
}

/// Number of colours in the palette.
pub const PALETTE_LEN: usize = 6;

/// Colour `i` of the palette: gold, blue, green, red, purple, white.
pub open spec fn palette_color(i: int) -> u32 {
    (if i == 0 {
        rgb_word(0xfd, 0xc4, 0x35)
    } else if i == 1 {
        rgb_word(0x29, 0xb6, 0xf6)
    } else if i == 2 {
        rgb_word(0x66, 0xbb, 0x6a)
    } else if i == 3 {
        rgb_word(0xef, 0x53, 0x50)
    } else if i == 4 {
        rgb_word(0xab, 0x47, 0xbc)
    } else {
        rgb_word(0xff, 0xff, 0xff)
    }) as u32
}

/// The palette.
pub fn palette() -> (p: [Color; 6])
    ensures
        forall|i: int| 0 <= i < 6 ==> (#[trigger] p@[i]).0 == palette_color(i),
{
    let p = [
        Color::rgb(0xfd, 0xc4, 0x35),
        Color::rgb(0x29, 0xb6, 0xf6),
        Color::rgb(0x66, 0xbb, 0x6a),
        Color::rgb(0xef, 0x53, 0x50),
        Color::rgb(0xab, 0x47, 0xbc),
        Color::rgb(0xff, 0xff, 0xff),
    ];
    p
}

/// The drawing: the strokes made so far and the palette colour in use.
pub struct PaintState {
    strokes: Vec<Stroke>,
    palette_idx: usize,
}

impl PaintState {
    /// The strokes made so far, oldest first.
    pub closed spec fn strokes_spec(&self) -> Seq<Stroke> {
        self.strokes@
    }

    /// The palette colour in use.
    pub closed spec fn palette_index(&self) -> int {
        self.palette_idx as int
    }

    /// The colour in use is one of the palette.
    pub open spec fn wf(&self) -> bool {
        0 <= self.palette_index() < PALETTE_LEN
    }

    /// An empty drawing in the first colour.
    pub fn new() -> (p: Self)
        ensures
            p.strokes_spec() == Seq::<Stroke>::empty(),
            p.palette_index() == 0,
            p.wf(),
    {
        Self { strokes: Vec::new(), palette_idx: 0 }
    }

    /// Records a stroke from (`x0`, `y0`) to (`x1`, `y1`) in the colour in use.
    pub fn on_pointer(&mut self, x0: i32, y0: i32, x1: i32, y1: i32)
        requires
            old(self).wf(),
        ensures
            final(self).strokes_spec() == old(self).strokes_spec().push(
                Stroke { x0, y0, x1, y1, color: palette_color(old(self).palette_index()) },
            ),
            final(self).palette_index() == old(self).palette_index(),
            final(self).wf(),
    {
        let p = palette();
        self.strokes.push(Stroke { x0, y0, x1, y1, color: p[self.palette_idx].0 });
    }

    /// Removes every stroke.
    pub fn clear(&mut self)
        ensures
            final(self).strokes_spec() == Seq::<Stroke>::empty(),
            final(self).palette_index() == old(self).palette_index(),
    {
        self.strokes.clear();
    }

    /// The strokes made so far, oldest first.
    pub fn strokes(&self) -> (s: &[Stroke])
        ensures
            s@ == self.strokes_spec(),
    {
        self.strokes.as_slice()
    }

    /// The palette colour in use.
    pub fn palette_idx(&self) -> (i: usize)
        ensures
            i == self.palette_index(),
    {
        self.palette_idx
    }
}

/// Draws the Bresenham line from (`x0`, `y0`) to (`x1`, `y1`), keeping only the points in the
/// `cw` x `ch` canvas rectangle at (`cx`, `cy`).
pub fn draw_line(
    fb: &mut Framebuffer,
    x0: i32,
    y0: i32,
    x1: i32,
    y1: i32,
    color: Color,
    cx: u32,
    cy: u32,
    cw: u32,
    ch: u32,
)
    requires
        old(fb)@.wf(),
        abs(x1 - x0) <= MAX_SPAN,
        abs(y1 - y0) <= MAX_SPAN,
        cx <= i32::MAX,
        cy <= i32::MAX,
        cx + cw <= u32::MAX,
        cy + ch <= u32::MAX,
    ensures
        final(fb)@ == line_canvas(
            old(fb)@,
            x0 as int,
            y0 as int,
            x1 as int,
            y1 as int,
            (cx as int, cy as int, cw as int, ch as int),
            color.0,
        ),
        final(fb)@.width == old(fb)@.width,
        final(fb)@.height == old(fb)@.height,
        final(fb)@.wf(),
{
    walk_line(fb, x0, y0, x1, y1, color, cx, cy, cw, ch);
}

/// Whether stroke `s` can be drawn three pixels thick without a coordinate overflowing.
pub open spec fn stroke_drawable(s: Stroke) -> bool {
    &&& i32::MIN < s.x0 < i32::MAX
    &&& i32::MIN < s.y0 < i32::MAX
    &&& i32::MIN < s.x1 < i32::MAX
    &&& i32::MIN < s.y1 < i32::MAX
    &&& abs(s.x1 - s.x0) <= MAX_SPAN
    &&& abs(s.y1 - s.y0) <= MAX_SPAN
}

/// The first `n` strokes, each drawn three pixels thick and clipped to `clip`.
pub open spec fn strokes_canvas(cv: Canvas, strokes: Seq<Stroke>, clip: (int, int, int, int), n: nat) -> Canvas
    decreases n,
{
    if n == 0 {
        cv
    } else {
        let s = strokes[n - 1];
        thick_walk(
            strokes_canvas(cv, strokes, clip, (n - 1) as nat),
            s.x0 as int,
            s.y0 as int,
            s.x1 as int,
            s.y1 as int,
            clip,
            s.color,
            9,
        )
    }
}

/// The first `n` palette swatches from (`x` + 8, `pal_y`), the one in use framed in white.
pub open spec fn swatches_canvas(cv: Canvas, x: int, pal_y: int, active: int, n: nat) -> Canvas
    decreases n,
{
    if n == 0 {
        cv
    } else {
        let i = n - 1;
        let px = x + 8 + 28 * i;
        let prev = swatches_canvas(cv, x, pal_y, active, (n - 1) as nat);
        let framed = if i == active { prev.fill_rect(px - 2, pal_y + 2, 26, 22, white_word()) } else { prev };
        framed.fill_rect(px, pal_y + 4, 22, 18, palette_color(i))
    }
}

/// The paint app in the `w` x `h` area at (`x`, `y`): title bar, palette, white canvas with
/// the strokes on it, hint bar.
pub open spec fn paint_canvas(cv: Canvas, strokes: Seq<Stroke>, active: int, x: int, y: int, w: int, h: int) -> Canvas {
    let title = rgb_word(0x14, 0x22, 0x3a) as u32;
    let pal_y = y + 22;
    let cv_y = pal_y + 24 + 2;
    let cv_h = if y + h >= cv_y { y + h - cv_y } else { 0 };
    let hint_y = y + h - 14;
    let c1 = cv.fill_rect(x, y, w, 22, title).text(x + 8, y + 6, "Paint  -  Sichqoncha bilan chizing"@, zamin_fg_word(), 1);
    let c2 = c1.fill_rect(x, pal_y, w, 24, rgb_word(0x0a, 0x14, 0x26) as u32);
    let c3 = swatches_canvas(c2, x, pal_y, active, 6).fill_rect(x, cv_y, w, cv_h, white_word());
    let c4 = strokes_canvas(c3, strokes, (x, cv_y, w, cv_h), strokes.len());
    c4.fill_rect(x, hint_y, w, 14, title).text(
        x + 6,
        hint_y + 2,
        "Sichqoncha = chizish, palette swatch'ni bosing"@,
        muted_word(),
        1,
    )
}

/// Draws the paint app in the `w` x `h` area at (`x`, `y`).
pub fn draw(shell: &Shell, fb: &mut Framebuffer, x: u32, y: u32, w: u32, h: u32)
    requires
        old(fb)@.wf(),
        shell.paint.wf(),
        x + w + 512 <= i32::MAX,
        y + h + 128 <= i32::MAX,
        y + h >= 14,
        forall|i: int|
            0 <= i < shell.paint.strokes_spec().len() ==> stroke_drawable(
                #[trigger] shell.paint.strokes_spec()[i],
            ),
    ensures
        final(fb)@ == paint_canvas(
            old(fb)@,
            shell.paint.strokes_spec(),
            shell.paint.palette_index(),
            x as int,
            y as int,
            w as int,
            h as int,
        ),
        final(fb)@.wf(),
{
    let ghost start = fb@;
    let title = Color::rgb(0x14, 0x22, 0x3a);
    // Title bar
    fb.fill_rect(x, y, w, 22, title);
    proof {
        reveal_strlit("Paint  -  Sichqoncha bilan chizing");
        reveal_strlit("Sichqoncha = chizish, palette swatch'ni bosing");
    }
    fb.draw_text(x + 8, y + 6, "Paint  -  Sichqoncha bilan chizing", Color::zamin_fg(), 1);

    // Palette
    let pal_y = y + 22;
    let pal_h = 24u32;
    fb.fill_rect(x, pal_y, w, pal_h, Color::rgb(0x0a, 0x14, 0x26));
    let ghost c2 = fb@;
    let sw_w = 22u32;
    let mut px = x + 8;
    let pal = palette();
    let mut i: usize = 0;
    while i < PALETTE_LEN
        invariant
            0 <= i <= 6,
            fb@.wf(),
            px == x + 8 + 28 * i,
            pal_y == y + 22,
            fb@.width == start.width,
            fb@.height == start.height,
            sw_w == 22,
            x + w + 512 <= i32::MAX,
            y + h + 128 <= i32::MAX,
            forall|j: int| 0 <= j < 6 ==> (#[trigger] pal@[j]).0 == palette_color(j),
            fb@ == swatches_canvas(c2, x as int, pal_y as int, shell.paint.palette_index(), i as nat),
        decreases 6 - i,
    {
        let active = i == shell.paint.palette_idx;
        if active {
            fb.fill_rect(px - 2, pal_y + 2, sw_w + 4, sw_w - 4 + 4, Color::white());
        }
        fb.fill_rect(px, pal_y + 4, sw_w, sw_w - 4, pal[i]);
        px += sw_w + 6;
        i += 1;
    }

    // Canvas
    let cv_y = pal_y + pal_h + 2;
    let cv_h = (y + h).saturating_sub(cv_y);
    fb.fill_rect(x, cv_y, w, cv_h, Color::white());
    let ghost c3 = fb@;
    let ghost clip = (x as int, cv_y as int, w as int, cv_h as int);

    // Strokes, three pixels thick, clipped to the canvas
    let strokes = &shell.paint.strokes;
    assert(forall|i: int| 0 <= i < strokes@.len() ==> stroke_drawable(#[trigger] strokes@[i])) by {
        assert(strokes@ == shell.paint.strokes_spec());
    }
    let mut k: usize = 0;
    while k < strokes.len()
        invariant
            0 <= k <= strokes@.len(),
            strokes@ == shell.paint.strokes_spec(),
            fb@.wf(),
            fb@.width == start.width,
            fb@.height == start.height,
            clip == (x as int, cv_y as int, w as int, cv_h as int),
            x + w + 512 <= i32::MAX,
            cv_y + cv_h + 64 <= i32::MAX,
            forall|i: int| 0 <= i < strokes@.len() ==> stroke_drawable(#[trigger] strokes@[i]),
            fb@ == strokes_canvas(c3, strokes@, clip, k as nat),
        decreases strokes@.len() - k,
    {
        let s = strokes[k];
        let ghost before = fb@;
        let mut dx: i32 = -1;
        while dx <= 1
            invariant
                -1 <= dx <= 2,
                fb@.wf(),
                fb@.width == start.width,
                fb@.height == start.height,
                stroke_drawable(s),
                clip == (x as int, cv_y as int, w as int, cv_h as int),
                x + w + 512 <= i32::MAX,
                cv_y + cv_h + 64 <= i32::MAX,
                fb@ == thick_walk(before, s.x0 as int, s.y0 as int, s.x1 as int, s.y1 as int, clip, s.color, ((dx + 1) * 3) as nat),
            decreases 2 - dx,
        {
            let mut dy: i32 = -1;
            while dy <= 1
                invariant
                    -1 <= dx <= 1,
                    -1 <= dy <= 2,
                    fb@.wf(),
                    fb@.width == start.width,
                    fb@.height == start.height,
                    stroke_drawable(s),
                    clip == (x as int, cv_y as int, w as int, cv_h as int),
                    x + w + 512 <= i32::MAX,
                    cv_y + cv_h + 64 <= i32::MAX,
                    fb@ == thick_walk(before, s.x0 as int, s.y0 as int, s.x1 as int, s.y1 as int, clip, s.color, ((dx + 1) * 3 + dy + 1) as nat),
                decreases 2 - dy,
            {
                draw_line(
                    fb,
                    s.x0 + dx,
                    s.y0 + dy,
                    s.x1 + dx,
                    s.y1 + dy,
                    Color(s.color),
                    x,
                    cv_y,
                    w,
                    cv_h,
                );
                dy += 1;
            }
            dx += 1;
        }
        k += 1;
    }

    // Hint bar
    let hint_y = y + h - 14;
    fb.fill_rect(x, hint_y, w, 14, title);
    fb.draw_text(x + 6, hint_y + 2, "Sichqoncha = chizish, palette swatch'ni bosing", Color::muted(), 1);
}

} // verus!
