//! Pictograms drawn from rectangles.

use vstd::prelude::*;
use crate::graphics::framebuffer::{Canvas, Color, Framebuffer, white_word};

verus! {

/// Half the width of row `j` of the roof of a house `size` pixels wide: it widens from
/// the top, at least one pixel.
pub open spec fn roof_half(j: int, size: int) -> int {
    let hw = j * (size / 2) / (size / 3);
    if hw >= 1 { hw } else { 1 }
}

/// The first `n` rows of the roof of a house `size` pixels wide at (`x`, `y`).
pub open spec fn roof_canvas(cv: Canvas, x: int, y: int, size: int, n: nat) -> Canvas
    decreases n,
{
    if n == 0 {
        cv
    } else {
        let j = n - 1;
        let hw = roof_half(j, size);
        roof_canvas(cv, x, y, size, (n - 1) as nat).fill_rect(x + size / 2 - hw, y + j, 2 * hw, 1, white_word())
    }
}

/// A white house `size` pixels wide at (`x`, `y`): a roof over the top third, the outline
/// of the body two pixels thick, and a door in the middle of its bottom.
pub open spec fn house_canvas(cv: Canvas, x: int, y: int, size: int) -> Canvas {
    let tom_h = size / 3;
    let c1 = roof_canvas(cv, x, y, size, tom_h as nat);
    let body_y = y + tom_h;
    let body_h = size - tom_h;
    let body_x = x + size / 6;
    let body_w = size - size / 3;
    let door_w = body_w / 4;
    let door_h = body_h / 2;
    let door_x = body_x + (body_w - door_w) / 2;
    c1.fill_rect(body_x, body_y, body_w, 2, white_word())
        .fill_rect(body_x, body_y, 2, body_h, white_word())
        .fill_rect(body_x + body_w - 2, body_y, 2, body_h, white_word())
        .fill_rect(body_x, y + size - 2, body_w, 2, white_word())
        .fill_rect(door_x, y + size - door_h, door_w, door_h, white_word())
}

/// Draws a white house `size` pixels wide at (`x`, `y`).
pub fn draw_house(fb: &mut Framebuffer, x: u32, y: u32, size: u32)
    requires
        old(fb)@.wf(),
        size >= 2,
        size / 3 == 0 || (size / 3 - 1) * (size / 2) <= u32::MAX,
        x + size <= u32::MAX,
        y + size <= u32::MAX,
    ensures
        final(fb)@ == house_canvas(old(fb)@, x as int, y as int, size as int),
        final(fb)@.wf(),
{
    let ghost start = fb@;
    let c = Color::white();
    // roof
    let mid = x + size / 2;
    let tom_h = size / 3;
    let mut j: u32 = 0;
    while j < tom_h
        invariant
            0 <= j <= tom_h,
            tom_h == size / 3,
            mid == x + size / 2,
            c.0 == white_word(),
            size >= 2,
            size / 3 == 0 || (size / 3 - 1) * (size / 2) <= u32::MAX,
            x + size <= u32::MAX,
            y + size <= u32::MAX,
            fb@.wf(),
            fb@ == roof_canvas(start, x as int, y as int, size as int, j as nat),
        decreases tom_h - j,
    {
        proof {
            let a = j as int;
            let h2 = (size / 2) as int;
            let t = tom_h as int;
            assert(a * h2 <= (t - 1) * h2) by (nonlinear_arith)
                requires
                    a <= t - 1,
                    h2 >= 0,
            ;
            assert(a * h2 <= t * h2) by (nonlinear_arith)
                requires
                    a <= t,
                    h2 >= 0,
            ;
            vstd::arithmetic::div_mod::lemma_div_is_ordered(a * h2, t * h2, t);
            vstd::arithmetic::div_mod::lemma_div_multiples_vanish(h2, t);
            assert(t * h2 == h2 * t) by (nonlinear_arith);
        }
        let q = j * (size / 2) / tom_h;
        let half_w = if q >= 1 {
            q
        } else {
            1
        };
        fb.fill_rect(mid - half_w, y + j, 2 * half_w, 1, c);
        j += 1;
    }
    // body
    let body_y = y + tom_h;
    let body_h = size - tom_h;
    let body_x = x + size / 6;
    let body_w = size - size / 3;
    fb.fill_rect(body_x, body_y, body_w, 2, c);
    fb.fill_rect(body_x, body_y, 2, body_h, c);
    fb.fill_rect(body_x + body_w - 2, body_y, 2, body_h, c);
    fb.fill_rect(body_x, y + size - 2, body_w, 2, c);
    // door
    let door_w = body_w / 4;
    let door_h = body_h / 2;
    let door_x = body_x + (body_w - door_w) / 2;
    fb.fill_rect(door_x, y + size - door_h, door_w, door_h, c);
}

} // verus!
