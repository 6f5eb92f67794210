//! Glyphs of the desktop layout's window controls.

use vstd::prelude::*;
use crate::graphics::framebuffer::{Canvas, Color, Framebuffer};
use crate::ui::frame_box_canvas;

verus! {

/// The first `n` steps of a cross `size` pixels wide at (`x`, `y`): step `i` sets a pixel
/// of each diagonal in column `x + i`.
pub open spec fn x_glyph_canvas(cv: Canvas, x: int, y: int, size: int, c: u32, n: nat) -> Canvas
    decreases n,
{
    if n == 0 {
        cv
    } else {
        let i = n - 1;
        x_glyph_canvas(cv, x, y, size, c, (n - 1) as nat).put(x + i, y + i, c).put(x + i, y + (size - 1 - i), c)
    }
}

/// Draws a cross (the close button) `size` pixels wide at (`x`, `y`); pixels off the
/// screen are skipped.
pub fn draw_x_glyph(fb: &mut Framebuffer, x: u32, y: u32, size: u32, c: Color)
    requires
        old(fb)@.wf(),
        x + size <= u32::MAX,
        y + size <= u32::MAX,
    ensures
        final(fb)@ == x_glyph_canvas(old(fb)@, x as int, y as int, size as int, c.0, size as nat),
        final(fb)@.wf(),
{
    let ghost start = fb@;
    let mut i: u32 = 0;
    while i < size
        invariant
            0 <= i <= size,
            x + size <= u32::MAX,
            y + size <= u32::MAX,
            fb@.wf(),
            fb@ == x_glyph_canvas(start, x as int, y as int, size as int, c.0, i as nat),
        decreases size - i,
    {
        let px = x + i;
        let py1 = y + i;
        let py2 = y + (size - 1 - i);
        if px < fb.width() && py1 < fb.height() {
            fb.put(px, py1, c);
        }
        if px < fb.width() && py2 < fb.height() {
            fb.put(px, py2, c);
        }
        i += 1;
    }
}

/// Draws a square outline (the maximise button) `size` pixels wide at (`x`, `y`).
pub fn draw_square_glyph(fb: &mut Framebuffer, x: u32, y: u32, size: u32, c: Color)
    requires
        old(fb)@.wf(),
        size >= 1,
        x + size <= u32::MAX,
        y + size <= u32::MAX,
    ensures
        final(fb)@ == frame_box_canvas(old(fb)@, x as int, y as int, size as int, size as int, c.0),
        final(fb)@.wf(),
{
    fb.hline(x, y, size, c);
    fb.hline(x, y + size - 1, size, c);
    fb.vline(x, y, size, c);
    fb.vline(x + size - 1, y, size, c);
}

} // verus!
