//! What the line and circle walks draw.

use vstd::prelude::*;
use crate::graphics::framebuffer::{Canvas, Color, Framebuffer, lemma_index_bound, lemma_index_join};

verus! {

/// `|v|`.
pub open spec fn abs(v: int) -> int {
    if v < 0 {
        -v
    } else {
        v
    }
}

/// `cv` with pixel (`x`, `y`) set to `c` when it lies in the clip rectangle
/// (`clip.0`, `clip.1`) of size `clip.2` x `clip.3`.
pub open spec fn plot(cv: Canvas, x: int, y: int, clip: (int, int, int, int), c: u32) -> Canvas {
    if clip.0 <= x < clip.0 + clip.2 && clip.1 <= y < clip.1 + clip.3 {
        cv.put(x, y, c)
    } else {
        cv
    }
}

/// The rest of a Bresenham walk from (`x`, `y`) with error term `err` towards (`x1`, `y1`),
/// plotting every point it visits, for at most `fuel` more points.
pub open spec fn line_walk(
    cv: Canvas,
    x: int,
    y: int,
    err: int,
    x1: int,
    y1: int,
    dx: int,
    dy: int,
    sx: int,
    sy: int,
    clip: (int, int, int, int),
    c: u32,
    fuel: nat,
) -> Canvas
    decreases fuel,
{
    let cv2 = plot(cv, x, y, clip, c);
    if fuel == 0 || (x == x1 && y == y1) {
        cv2
    } else {
        let e2 = 2 * err;
        let err1 = if e2 >= dy { err + dy } else { err };
        let xn = if e2 >= dy { x + sx } else { x };
        let err2 = if e2 <= dx { err1 + dx } else { err1 };
        let yn = if e2 <= dx { y + sy } else { y };
        line_walk(cv2, xn, yn, err2, x1, y1, dx, dy, sx, sy, clip, c, (fuel - 1) as nat)
    }
}

/// The Bresenham line from (`x0`, `y0`) to (`x1`, `y1`), both ends included, clipped to `clip`.
pub open spec fn line_canvas(
    cv: Canvas,
    x0: int,
    y0: int,
    x1: int,
    y1: int,
    clip: (int, int, int, int),
    c: u32,
) -> Canvas {
    let dx = abs(x1 - x0);
    let dy = -abs(y1 - y0);
    let sx = if x0 < x1 { 1int } else { -1 };
    let sy = if y0 < y1 { 1int } else { -1 };
    line_walk(cv, x0, y0, dx + dy, x1, y1, dx, dy, sx, sy, clip, c, (dx - dy + 1) as nat)
}

/// A walk with more fuel than it needs draws the same.
pub proof fn lemma_line_walk_fuel(
    cv: Canvas,
    x: int,
    y: int,
    err: int,
    x1: int,
    y1: int,
    dx: int,
    dy: int,
    sx: int,
    sy: int,
    clip: (int, int, int, int),
    c: u32,
    fuel: nat,
)
    requires
        fuel > 0,
    ensures
        line_walk(cv, x, y, err, x1, y1, dx, dy, sx, sy, clip, c, fuel) == ({
            let cv2 = plot(cv, x, y, clip, c);
            if x == x1 && y == y1 {
                cv2
            } else {
                let e2 = 2 * err;
                let err1 = if e2 >= dy { err + dy } else { err };
                let xn = if e2 >= dy { x + sx } else { x };
                let err2 = if e2 <= dx { err1 + dx } else { err1 };
                let yn = if e2 <= dx { y + sy } else { y };
                line_walk(cv2, xn, yn, err2, x1, y1, dx, dy, sx, sy, clip, c, (fuel - 1) as nat)
            }
        }),
{
}

/// The eight points of a circle walk at offset (`x`, `y`) from the centre, clipped to `clip`.
pub open spec fn octants(cv: Canvas, cx: int, cy: int, x: int, y: int, clip: (int, int, int, int), c: u32) -> Canvas {
    let c1 = plot(cv, cx + x, cy + y, clip, c);
    let c2 = plot(c1, cx + y, cy + x, clip, c);
    let c3 = plot(c2, cx - y, cy + x, clip, c);
    let c4 = plot(c3, cx - x, cy + y, clip, c);
    let c5 = plot(c4, cx - x, cy - y, clip, c);
    let c6 = plot(c5, cx - y, cy - x, clip, c);
    let c7 = plot(c6, cx + y, cy - x, clip, c);
    plot(c7, cx + x, cy - y, clip, c)
}

/// The rest of a midpoint circle walk at offset (`x`, `y`) with error term `err`, for at
/// most `fuel` more steps.
pub open spec fn circle_walk(
    cv: Canvas,
    cx: int,
    cy: int,
    x: int,
    y: int,
    err: int,
    clip: (int, int, int, int),
    c: u32,
    fuel: nat,
) -> Canvas
    decreases fuel,
{
    if fuel == 0 || x < y {
        cv
    } else {
        let cv2 = octants(cv, cx, cy, x, y, clip, c);
        let y1 = if err <= 0 { y + 1 } else { y };
        let err1 = if err <= 0 { err + 2 * y1 + 1 } else { err };
        let x1 = if err1 > 0 { x - 1 } else { x };
        let err2 = if err1 > 0 { err1 - 2 * x1 - 1 } else { err1 };
        circle_walk(cv2, cx, cy, x1, y1, err2, clip, c, (fuel - 1) as nat)
    }
}

/// The midpoint circle of radius `r` around (`cx`, `cy`), clipped to `clip`.
pub open spec fn circle_canvas(cv: Canvas, cx: int, cy: int, r: int, clip: (int, int, int, int), c: u32) -> Canvas {
    circle_walk(cv, cx, cy, r, 0, 0, clip, c, (r + 1) as nat)
}

/// Largest coordinate distance a line may span without its error term overflowing.
pub const MAX_SPAN: i32 = 0x1000_0000;

/// One step of a Bresenham walk keeps the position and the error term in step: after `a`
/// steps along x and `b` along y the error is `dx * (1 + b) - dyy * (1 + a)`, and a step
/// along an axis is taken only while that axis has not reached its end.
proof fn lemma_bresenham_step(dx: int, dyy: int, a: int, b: int, err: int)
    requires
        0 <= a <= dx,
        0 <= b <= dyy,
        !(a == dx && b == dyy),
        err == dx * (1 + b) - dyy * (1 + a),
    ensures
        2 * err >= -dyy ==> a < dx,
        2 * err <= dx ==> b < dyy,
        2 * err >= -dyy || 2 * err <= dx,
        err - dyy == dx * (1 + b) - dyy * (2 + a),
        err + dx == dx * (2 + b) - dyy * (1 + a),
        err - dyy + dx == dx * (2 + b) - dyy * (2 + a),
{
    if a == dx {
        assert(dx * b <= dx * (dyy - 1)) by (nonlinear_arith)
            requires
                0 <= dx,
                b <= dyy - 1,
        ;
        assert(err == dx + dx * b - dyy - dyy * dx) by (nonlinear_arith)
            requires
                a == dx,
                err == dx * (1 + b) - dyy * (1 + a),
        ;
        assert(dx * (dyy - 1) == dx * dyy - dx) by (nonlinear_arith);
        assert(dyy * dx == dx * dyy) by (nonlinear_arith);
    }
    if b == dyy {
        assert(dyy * a <= dyy * (dx - 1)) by (nonlinear_arith)
            requires
                0 <= dyy,
                a <= dx - 1,
        ;
        assert(err == dx + dx * dyy - dyy - dyy * a) by (nonlinear_arith)
            requires
                b == dyy,
                err == dx * (1 + b) - dyy * (1 + a),
        ;
        assert(dyy * (dx - 1) == dyy * dx - dyy) by (nonlinear_arith);
        assert(dyy * dx == dx * dyy) by (nonlinear_arith);
    }
    assert(err - dyy == dx * (1 + b) - dyy * (2 + a)) by (nonlinear_arith)
        requires
            err == dx * (1 + b) - dyy * (1 + a),
    ;
    assert(err + dx == dx * (2 + b) - dyy * (1 + a)) by (nonlinear_arith)
        requires
            err == dx * (1 + b) - dyy * (1 + a),
    ;
    assert(err - dyy + dx == dx * (2 + b) - dyy * (2 + a)) by (nonlinear_arith)
        requires
            err == dx * (1 + b) - dyy * (1 + a),
    ;
}

/// Walks the Bresenham line from (`x0`, `y0`) to (`x1`, `y1`), setting the points that lie
/// in the `cw` x `ch` clip rectangle at (`cx`, `cy`).
pub fn walk_line(
    fb: &mut Framebuffer,
    x0: i32,
    y0: i32,
    x1: i32,
    y1: i32,
    color: Color,
    cx: u32,
    cy: u32,
    cw: u32,
    ch: u32,
)
    requires
        old(fb)@.wf(),
        abs(x1 - x0) <= MAX_SPAN,
        abs(y1 - y0) <= MAX_SPAN,
        cx <= i32::MAX,
        cy <= i32::MAX,
        cx + cw <= u32::MAX,
        cy + ch <= u32::MAX,
    ensures
        final(fb)@ == line_canvas(
            old(fb)@,
            x0 as int,
            y0 as int,
            x1 as int,
            y1 as int,
            (cx as int, cy as int, cw as int, ch as int),
            color.0,
        ),
        final(fb)@.width == old(fb)@.width,
        final(fb)@.height == old(fb)@.height,
        final(fb)@.wf(),
{
    let ghost start = fb@;
    let mut x = x0;
    let mut y = y0;
    let ddx = x1 - x0;
    let dx = if ddx < 0 {
        -ddx
    } else {
        ddx
    };
    let sx: i32 = if x0 < x1 {
        1
    } else {
        -1
    };
    let ddy = y1 - y0;
    let dy = -(if ddy < 0 {
        -ddy
    } else {
        ddy
    });
    let sy: i32 = if y0 < y1 {
        1
    } else {
        -1
    };
    let mut err = dx + dy;

    let cx_end = cx + cw;
    let cy_end = cy + ch;
    let ghost clip = (cx as int, cy as int, cw as int, ch as int);
    let ghost dyy = -dy;
    let ghost mut a: int = 0;
    let ghost mut b: int = 0;
    let ghost mut fuel: nat = (dx - dy + 1) as nat;
    let ghost target = line_canvas(start, x0 as int, y0 as int, x1 as int, y1 as int, clip, color.0);
    assert(err == dx * (1 + b) - dyy * (1 + a)) by (nonlinear_arith)
        requires
            a == 0,
            b == 0,
            err == dx - dyy,
    ;
    loop
        invariant_except_break
            target == line_walk(fb@, x as int, y as int, err as int, x1 as int, y1 as int, dx as int, dy as int, sx as int, sy as int, clip, color.0, fuel),
        invariant
            fb@.wf(),
            fb@.width == start.width,
            fb@.height == start.height,
            cx_end == cx + cw,
            cy_end == cy + ch,
            cx <= i32::MAX,
            cy <= i32::MAX,
            clip == (cx as int, cy as int, cw as int, ch as int),
            dx == abs(x1 - x0),
            dy == -abs(y1 - y0),
            dyy == -dy,
            dx <= MAX_SPAN,
            dyy <= MAX_SPAN,
            sx == (if x0 < x1 { 1int } else { -1 }),
            sy == (if y0 < y1 { 1int } else { -1 }),
            0 <= a <= dx,
            0 <= b <= dyy,
            x == x0 + sx * a,
            y == y0 + sy * b,
            err == dx * (1 + b) - dyy * (1 + a),
            -2 * dyy <= err <= 2 * dx,
            fuel >= (dx - a) + (dyy - b) + 1,
        ensures
            fb@.wf(),
            fb@.width == start.width,
            fb@.height == start.height,
            fb@ == target,
        decreases (dx - a) + (dyy - b),
    {
        proof {
            lemma_line_walk_fuel(fb@, x as int, y as int, err as int, x1 as int, y1 as int, dx as int, dy as int, sx as int, sy as int, clip, color.0, fuel);
        }
        if x >= cx as i32 && (x as u32) < cx_end && y >= cy as i32 && (y as u32) < cy_end {
            fb.put(x as u32, y as u32, color);
        }
        if x == x1 && y == y1 {
            break;
        }
        proof {
            assert(x == x1 <==> a == dx) by (nonlinear_arith)
                requires
                    x == x0 + sx * a,
                    sx == (if x0 < x1 { 1int } else { -1 }),
                    dx == abs(x1 - x0),
            ;
            assert(y == y1 <==> b == dyy) by (nonlinear_arith)
                requires
                    y == y0 + sy * b,
                    sy == (if y0 < y1 { 1int } else { -1 }),
                    dyy == abs(y1 - y0),
            ;
            lemma_bresenham_step(dx as int, dyy, a, b, err as int);
        }
        let e2 = 2 * err;
        if e2 >= dy {
            assert(sx == 1 ==> x0 + sx * a == x0 + a) by (nonlinear_arith);
            assert(sx == -1 ==> x0 + sx * a == x0 - a) by (nonlinear_arith);
            err += dy;
            x += sx;
            proof {
                assert(x0 + sx * (a + 1) == x0 + sx * a + sx) by (nonlinear_arith);
                a = a + 1;
            }
        }
        if e2 <= dx {
            assert(sy == 1 ==> y0 + sy * b == y0 + b) by (nonlinear_arith);
            assert(sy == -1 ==> y0 + sy * b == y0 - b) by (nonlinear_arith);
            err += dx;
            y += sy;
            proof {
                assert(y0 + sy * (b + 1) == y0 + sy * b + sy) by (nonlinear_arith);
                b = b + 1;
            }
        }
        proof {
            fuel = (fuel - 1) as nat;
        }
    }
}

/// Whether (`x`, `y`) lies in the clip rectangle.
pub open spec fn in_clip(clip: (int, int, int, int), x: int, y: int) -> bool {
    clip.0 <= x < clip.0 + clip.2 && clip.1 <= y < clip.1 + clip.3
}

/// Whether `after` is `before` with some pixels set to `c`, each of them at a position
/// that satisfies `region`.
pub open spec fn changes_within(before: Canvas, after: Canvas, c: u32, region: spec_fn(int, int) -> bool) -> bool {
    &&& after.width == before.width
    &&& after.height == before.height
    &&& after.pixels.len() == before.pixels.len()
    &&& forall|k: int|
        0 <= k < before.pixels.len() ==> #[trigger] after.pixels[k] == before.pixels[k] || (after.pixels[k] == c
            && region(before.col_of(k), before.row_of(k)))
}

proof fn lemma_changes_trans(a: Canvas, b: Canvas, d: Canvas, c: u32, region: spec_fn(int, int) -> bool)
    requires
        changes_within(a, b, c, region),
        changes_within(b, d, c, region),
    ensures
        changes_within(a, d, c, region),
{
    assert forall|k: int| 0 <= k < a.pixels.len() implies #[trigger] d.pixels[k] == a.pixels[k] || (d.pixels[k]
        == c && region(a.col_of(k), a.row_of(k))) by {
        assert(d.pixels[k] == b.pixels[k] || (d.pixels[k] == c && region(b.col_of(k), b.row_of(k))));
        assert(b.pixels[k] == a.pixels[k] || (b.pixels[k] == c && region(a.col_of(k), a.row_of(k))));
    }
}

/// A pixel that already has colour `c` keeps it through changes that only set `c`.
proof fn lemma_changes_keep(a: Canvas, b: Canvas, c: u32, region: spec_fn(int, int) -> bool, px: int, py: int)
    requires
        a.wf(),
        changes_within(a, b, c, region),
        0 <= px < a.width,
        0 <= py < a.height,
        a.at(px, py) == c,
    ensures
        b.at(px, py) == c,
{
    lemma_index_bound(a.width as int, a.height as int, px, py);
    assert(b.pixels[py * a.width + px] == a.pixels[py * a.width + px] || b.pixels[py * a.width + px] == c);
}

/// Plotting a point sets it when it is on the canvas and in the clip, and changes nothing
/// else.
proof fn lemma_plot(cv: Canvas, x: int, y: int, clip: (int, int, int, int), c: u32, region: spec_fn(int, int) -> bool)
    requires
        cv.wf(),
        in_clip(clip, x, y) && 0 <= x < cv.width && 0 <= y < cv.height ==> region(x, y),
    ensures
        changes_within(cv, plot(cv, x, y, clip, c), c, region),
        plot(cv, x, y, clip, c).wf(),
        in_clip(clip, x, y) && 0 <= x < cv.width && 0 <= y < cv.height ==> plot(cv, x, y, clip, c).at(x, y) == c,
{
    let out = plot(cv, x, y, clip, c);
    if in_clip(clip, x, y) && 0 <= x < cv.width && 0 <= y < cv.height {
        lemma_index_bound(cv.width as int, cv.height as int, x, y);
        lemma_index_join(cv.width as int, x, y);
        assert forall|k: int| 0 <= k < cv.pixels.len() implies #[trigger] out.pixels[k] == cv.pixels[k] || (
        out.pixels[k] == c && region(cv.col_of(k), cv.row_of(k))) by {
            if k == y * cv.width + x {
                assert(cv.col_of(k) == x && cv.row_of(k) == y);
            }
        }
    }
}

/// A walk of a line changes only pixels in its clip rectangle, each to the line's colour.
proof fn lemma_line_walk_clip(
    cv: Canvas,
    x: int,
    y: int,
    err: int,
    x1: int,
    y1: int,
    dx: int,
    dy: int,
    sx: int,
    sy: int,
    clip: (int, int, int, int),
    c: u32,
    fuel: nat,
)
    requires
        cv.wf(),
    ensures
        changes_within(
            cv,
            line_walk(cv, x, y, err, x1, y1, dx, dy, sx, sy, clip, c, fuel),
            c,
            |px: int, py: int| in_clip(clip, px, py),
        ),
        line_walk(cv, x, y, err, x1, y1, dx, dy, sx, sy, clip, c, fuel).wf(),
    decreases fuel,
{
    let region = |px: int, py: int| in_clip(clip, px, py);
    let cv2 = plot(cv, x, y, clip, c);
    lemma_plot(cv, x, y, clip, c, region);
    if !(fuel == 0 || (x == x1 && y == y1)) {
        let e2 = 2 * err;
        let err1 = if e2 >= dy { err + dy } else { err };
        let xn = if e2 >= dy { x + sx } else { x };
        let err2 = if e2 <= dx { err1 + dx } else { err1 };
        let yn = if e2 <= dx { y + sy } else { y };
        lemma_line_walk_clip(cv2, xn, yn, err2, x1, y1, dx, dy, sx, sy, clip, c, (fuel - 1) as nat);
        lemma_changes_trans(cv, cv2, line_walk(cv2, xn, yn, err2, x1, y1, dx, dy, sx, sy, clip, c, (fuel - 1) as nat), c, region);
    }
}

/// Along one axis, `a` steps of sign `s` from `x0` reach `x1` exactly after `d` steps.
proof fn lemma_axis(x0: int, x1: int, d: int, s: int, a: int)
    requires
        d == abs(x1 - x0),
        s == (if x0 < x1 { 1int } else { -1 }),
        0 <= a <= d,
    ensures
        (x0 + s * a == x1) <==> (a == d),
        x0 + s * (a + 1) == x0 + s * a + s,
{
    if x0 < x1 {
        assert(s * a == a && s * (a + 1) == a + 1) by (nonlinear_arith)
            requires
                s == 1,
        ;
    } else {
        assert(s * a == -a && s * (a + 1) == -a - 1) by (nonlinear_arith)
            requires
                s == -1,
        ;
    }
}

/// The rest of a walk that has taken `a` steps along x and `b` along y sets its end point
/// (`x1`, `y1`) when that point is on the canvas and in the clip.
proof fn lemma_line_walk_end(
    cv: Canvas,
    x0: int,
    y0: int,
    x1: int,
    y1: int,
    dx: int,
    dyy: int,
    sx: int,
    sy: int,
    a: int,
    b: int,
    err: int,
    clip: (int, int, int, int),
    c: u32,
    fuel: nat,
)
    requires
        cv.wf(),
        dx == abs(x1 - x0),
        dyy == abs(y1 - y0),
        sx == (if x0 < x1 { 1int } else { -1 }),
        sy == (if y0 < y1 { 1int } else { -1 }),
        0 <= a <= dx,
        0 <= b <= dyy,
        err == dx * (1 + b) - dyy * (1 + a),
        fuel >= (dx - a) + (dyy - b) + 1,
        in_clip(clip, x1, y1),
        0 <= x1 < cv.width,
        0 <= y1 < cv.height,
    ensures
        line_walk(cv, x0 + sx * a, y0 + sy * b, err, x1, y1, dx, -dyy, sx, sy, clip, c, fuel).at(x1, y1) == c,
    decreases (dx - a) + (dyy - b),
{
    let x = x0 + sx * a;
    let y = y0 + sy * b;
    let cv2 = plot(cv, x, y, clip, c);
    lemma_plot(cv, x, y, clip, c, |px: int, py: int| in_clip(clip, px, py));
    lemma_axis(x0, x1, dx, sx, a);
    lemma_axis(y0, y1, dyy, sy, b);
    if a == dx && b == dyy {
        assert(x == x1 && y == y1);
    } else {
        lemma_bresenham_step(dx, dyy, a, b, err);
        let e2 = 2 * err;
        let dy = -dyy;
        let na = if e2 >= dy { a + 1 } else { a };
        let nb = if e2 <= dx { b + 1 } else { b };
        let err1 = if e2 >= dy { err + dy } else { err };
        let err2 = if e2 <= dx { err1 + dx } else { err1 };
        assert(x != x1 || y != y1);
        assert(x0 + sx * na == (if e2 >= dy { x + sx } else { x }));
        assert(y0 + sy * nb == (if e2 <= dx { y + sy } else { y }));
        lemma_line_walk_end(cv2, x0, y0, x1, y1, dx, dyy, sx, sy, na, nb, err2, clip, c, (fuel - 1) as nat);
    }
}

/// The Bresenham line changes only pixels in its clip rectangle, each to its colour, and
/// sets both of its end points when they are on the canvas and in the clip.
pub proof fn law_line_ends(cv: Canvas, x0: int, y0: int, x1: int, y1: int, clip: (int, int, int, int), c: u32)
    requires
        cv.wf(),
    ensures
        changes_within(cv, line_canvas(cv, x0, y0, x1, y1, clip, c), c, |px: int, py: int| in_clip(clip, px, py)),
        in_clip(clip, x0, y0) && 0 <= x0 < cv.width && 0 <= y0 < cv.height ==> line_canvas(cv, x0, y0, x1, y1, clip, c).at(x0, y0) == c,
        in_clip(clip, x1, y1) && 0 <= x1 < cv.width && 0 <= y1 < cv.height ==> line_canvas(cv, x0, y0, x1, y1, clip, c).at(x1, y1) == c,
{
    let dx = abs(x1 - x0);
    let dy = -abs(y1 - y0);
    let sx = if x0 < x1 { 1int } else { -1 };
    let sy = if y0 < y1 { 1int } else { -1 };
    let fuel = (dx - dy + 1) as nat;
    let region = |px: int, py: int| in_clip(clip, px, py);
    let out = line_canvas(cv, x0, y0, x1, y1, clip, c);
    lemma_line_walk_clip(cv, x0, y0, dx + dy, x1, y1, dx, dy, sx, sy, clip, c, fuel);
    if in_clip(clip, x0, y0) && 0 <= x0 < cv.width && 0 <= y0 < cv.height {
        let cv2 = plot(cv, x0, y0, clip, c);
        lemma_plot(cv, x0, y0, clip, c, region);
        if !(x0 == x1 && y0 == y1) {
            let e2 = 2 * (dx + dy);
            let err1 = if e2 >= dy { dx + dy + dy } else { dx + dy };
            let xn = if e2 >= dy { x0 + sx } else { x0 };
            let err2 = if e2 <= dx { err1 + dx } else { err1 };
            let yn = if e2 <= dx { y0 + sy } else { y0 };
            lemma_line_walk_clip(cv2, xn, yn, err2, x1, y1, dx, dy, sx, sy, clip, c, (fuel - 1) as nat);
            lemma_changes_keep(cv2, out, c, region, x0, y0);
        }
    }
    if in_clip(clip, x1, y1) && 0 <= x1 < cv.width && 0 <= y1 < cv.height {
        assert(dx + dy == dx * (1 + 0) - (-dy) * (1 + 0)) by (nonlinear_arith);
        lemma_line_walk_end(cv, x0, y0, x1, y1, dx, -dy, sx, sy, 0, 0, dx + dy, clip, c, fuel);
        assert(x0 + sx * 0 == x0 && y0 + sy * 0 == y0);
    }
}

/// Point `i` (0..8) of the eight that a circle walk plots at offset (`x`, `y`).
pub open spec fn octant_point(cx: int, cy: int, x: int, y: int, i: int) -> (int, int) {
    if i == 0 {
        (cx + x, cy + y)
    } else if i == 1 {
        (cx + y, cy + x)
    } else if i == 2 {
        (cx - y, cy + x)
    } else if i == 3 {
        (cx - x, cy + y)
    } else if i == 4 {
        (cx - x, cy - y)
    } else if i == 5 {
        (cx - y, cy - x)
    } else if i == 6 {
        (cx + y, cy - x)
    } else {
        (cx + x, cy - y)
    }
}

/// Whether (`px`, `py`) is on the canvas `cv` and in the clip.
pub open spec fn visible(cv: Canvas, clip: (int, int, int, int), px: int, py: int) -> bool {
    in_clip(clip, px, py) && 0 <= px < cv.width && 0 <= py < cv.height
}

/// The eight points of a circle step are set where visible, and nothing else changes.
proof fn lemma_octants(
    cv: Canvas,
    cx: int,
    cy: int,
    x: int,
    y: int,
    clip: (int, int, int, int),
    c: u32,
    region: spec_fn(int, int) -> bool,
)
    requires
        cv.wf(),
        forall|i: int|
            0 <= i < 8 && visible(cv, clip, octant_point(cx, cy, x, y, i).0, octant_point(cx, cy, x, y, i).1)
                ==> region(#[trigger] octant_point(cx, cy, x, y, i).0, octant_point(cx, cy, x, y, i).1),
    ensures
        changes_within(cv, octants(cv, cx, cy, x, y, clip, c), c, region),
        octants(cv, cx, cy, x, y, clip, c).wf(),
        forall|i: int|
            0 <= i < 8 && visible(cv, clip, octant_point(cx, cy, x, y, i).0, octant_point(cx, cy, x, y, i).1)
                ==> octants(cv, cx, cy, x, y, clip, c).at(
                #[trigger] octant_point(cx, cy, x, y, i).0,
                octant_point(cx, cy, x, y, i).1,
            ) == c,
{
    assert(octant_point(cx, cy, x, y, 0).0 == cx + x && octant_point(cx, cy, x, y, 0).1 == cy + y);
    assert(octant_point(cx, cy, x, y, 1).0 == cx + y && octant_point(cx, cy, x, y, 1).1 == cy + x);
    assert(octant_point(cx, cy, x, y, 2).0 == cx - y && octant_point(cx, cy, x, y, 2).1 == cy + x);
    assert(octant_point(cx, cy, x, y, 3).0 == cx - x && octant_point(cx, cy, x, y, 3).1 == cy + y);
    assert(octant_point(cx, cy, x, y, 4).0 == cx - x && octant_point(cx, cy, x, y, 4).1 == cy - y);
    assert(octant_point(cx, cy, x, y, 5).0 == cx - y && octant_point(cx, cy, x, y, 5).1 == cy - x);
    assert(octant_point(cx, cy, x, y, 6).0 == cx + y && octant_point(cx, cy, x, y, 6).1 == cy - x);
    assert(octant_point(cx, cy, x, y, 7).0 == cx + x && octant_point(cx, cy, x, y, 7).1 == cy - y);
    let c1 = plot(cv, cx + x, cy + y, clip, c);
    let c2 = plot(c1, cx + y, cy + x, clip, c);
    let c3 = plot(c2, cx - y, cy + x, clip, c);
    let c4 = plot(c3, cx - x, cy + y, clip, c);
    let c5 = plot(c4, cx - x, cy - y, clip, c);
    let c6 = plot(c5, cx - y, cy - x, clip, c);
    let c7 = plot(c6, cx + y, cy - x, clip, c);
    let c8 = plot(c7, cx + x, cy - y, clip, c);
    lemma_plot(cv, cx + x, cy + y, clip, c, region);
    lemma_plot(c1, cx + y, cy + x, clip, c, region);
    lemma_plot(c2, cx - y, cy + x, clip, c, region);
    lemma_plot(c3, cx - x, cy + y, clip, c, region);
    lemma_plot(c4, cx - x, cy - y, clip, c, region);
    lemma_plot(c5, cx - y, cy - x, clip, c, region);
    lemma_plot(c6, cx + y, cy - x, clip, c, region);
    lemma_plot(c7, cx + x, cy - y, clip, c, region);
    lemma_changes_trans(c6, c7, c8, c, region);
    lemma_changes_trans(c5, c6, c8, c, region);
    lemma_changes_trans(c4, c5, c8, c, region);
    lemma_changes_trans(c3, c4, c8, c, region);
    lemma_changes_trans(c2, c3, c8, c, region);
    lemma_changes_trans(c1, c2, c8, c, region);
    lemma_changes_trans(cv, c1, c8, c, region);
    assert forall|i: int|
        0 <= i < 8 && visible(cv, clip, octant_point(cx, cy, x, y, i).0, octant_point(cx, cy, x, y, i).1)
            implies c8.at(#[trigger] octant_point(cx, cy, x, y, i).0, octant_point(cx, cy, x, y, i).1) == c by {
        let (px, py) = octant_point(cx, cy, x, y, i);
        if i == 0 {
            lemma_changes_keep(c1, c8, c, region, px, py);
        } else if i == 1 {
            lemma_changes_keep(c2, c8, c, region, px, py);
        } else if i == 2 {
            lemma_changes_keep(c3, c8, c, region, px, py);
        } else if i == 3 {
            lemma_changes_keep(c4, c8, c, region, px, py);
        } else if i == 4 {
            lemma_changes_keep(c5, c8, c, region, px, py);
        } else if i == 5 {
            lemma_changes_keep(c6, c8, c, region, px, py);
        } else if i == 6 {
            lemma_changes_keep(c7, c8, c, region, px, py);
        }
    }
}

/// Whether (`px`, `py`) is within `r` of (`cx`, `cy`) along each axis and in the clip.
pub open spec fn in_circle_box(cx: int, cy: int, r: int, clip: (int, int, int, int), px: int, py: int) -> bool {
    abs(px - cx) <= r && abs(py - cy) <= r && in_clip(clip, px, py)
}

/// The rest of a circle walk changes only pixels within `r` of the centre along each axis.
proof fn lemma_circle_walk_box(
    cv: Canvas,
    cx: int,
    cy: int,
    r: int,
    x: int,
    y: int,
    err: int,
    clip: (int, int, int, int),
    c: u32,
    fuel: nat,
)
    requires
        cv.wf(),
        0 <= y,
        x <= r,
    ensures
        changes_within(
            cv,
            circle_walk(cv, cx, cy, x, y, err, clip, c, fuel),
            c,
            |px: int, py: int| in_circle_box(cx, cy, r, clip, px, py),
        ),
        circle_walk(cv, cx, cy, x, y, err, clip, c, fuel).wf(),
    decreases fuel,
{
    let region = |px: int, py: int| in_circle_box(cx, cy, r, clip, px, py);
    if fuel == 0 || x < y {
        assert(circle_walk(cv, cx, cy, x, y, err, clip, c, fuel).pixels =~= cv.pixels);
    } else {
        assert forall|i: int|
            0 <= i < 8 && visible(cv, clip, octant_point(cx, cy, x, y, i).0, octant_point(cx, cy, x, y, i).1)
                implies region(#[trigger] octant_point(cx, cy, x, y, i).0, octant_point(cx, cy, x, y, i).1) by {
        }
        lemma_octants(cv, cx, cy, x, y, clip, c, region);
        let cv2 = octants(cv, cx, cy, x, y, clip, c);
        let y1 = if err <= 0 { y + 1 } else { y };
        let err1 = if err <= 0 { err + 2 * y1 + 1 } else { err };
        let x1 = if err1 > 0 { x - 1 } else { x };
        let err2 = if err1 > 0 { err1 - 2 * x1 - 1 } else { err1 };
        lemma_circle_walk_box(cv2, cx, cy, r, x1, y1, err2, clip, c, (fuel - 1) as nat);
        lemma_changes_trans(cv, cv2, circle_walk(cv2, cx, cy, x1, y1, err2, clip, c, (fuel - 1) as nat), c, region);
    }
}

/// The midpoint circle of radius `r` changes only pixels within `r` of its centre along
/// each axis and in the clip, each to its colour, and sets its four points on the axes
/// (`r` left, right, above and below the centre) where they are visible.
pub proof fn law_circle_box(cv: Canvas, cx: int, cy: int, r: int, clip: (int, int, int, int), c: u32)
    requires
        cv.wf(),
        r >= 0,
    ensures
        changes_within(
            cv,
            circle_canvas(cv, cx, cy, r, clip, c),
            c,
            |px: int, py: int| in_circle_box(cx, cy, r, clip, px, py),
        ),
        visible(cv, clip, cx + r, cy) ==> circle_canvas(cv, cx, cy, r, clip, c).at(cx + r, cy) == c,
        visible(cv, clip, cx - r, cy) ==> circle_canvas(cv, cx, cy, r, clip, c).at(cx - r, cy) == c,
        visible(cv, clip, cx, cy + r) ==> circle_canvas(cv, cx, cy, r, clip, c).at(cx, cy + r) == c,
        visible(cv, clip, cx, cy - r) ==> circle_canvas(cv, cx, cy, r, clip, c).at(cx, cy - r) == c,
{
    let region = |px: int, py: int| in_circle_box(cx, cy, r, clip, px, py);
    lemma_circle_walk_box(cv, cx, cy, r, r, 0, 0, clip, c, (r + 1) as nat);
    assert forall|i: int|
        0 <= i < 8 && visible(cv, clip, octant_point(cx, cy, r, 0, i).0, octant_point(cx, cy, r, 0, i).1)
            implies region(#[trigger] octant_point(cx, cy, r, 0, i).0, octant_point(cx, cy, r, 0, i).1) by {
    }
    lemma_octants(cv, cx, cy, r, 0, clip, c, region);
    let cv2 = octants(cv, cx, cy, r, 0, clip, c);
    let y1 = 1int;
    let err1 = 3int;
    let x1 = r - 1;
    let err2 = 3 - 2 * x1 - 1;
    assert(circle_canvas(cv, cx, cy, r, clip, c) == circle_walk(cv2, cx, cy, x1, y1, err2, clip, c, r as nat));
    lemma_circle_walk_box(cv2, cx, cy, r, x1, y1, err2, clip, c, r as nat);
    let out = circle_canvas(cv, cx, cy, r, clip, c);
    assert(octant_point(cx, cy, r, 0, 0) == (cx + r, cy));
    assert(octant_point(cx, cy, r, 0, 1) == (cx, cy + r));
    assert(octant_point(cx, cy, r, 0, 3) == (cx - r, cy));
    assert(octant_point(cx, cy, r, 0, 5) == (cx, cy - r));
    if visible(cv, clip, cx + r, cy) {
        assert(visible(cv, clip, octant_point(cx, cy, r, 0, 0).0, octant_point(cx, cy, r, 0, 0).1));
        assert(cv2.at(octant_point(cx, cy, r, 0, 0).0, octant_point(cx, cy, r, 0, 0).1) == c);
        lemma_changes_keep(cv2, out, c, region, cx + r, cy);
    }
    if visible(cv, clip, cx - r, cy) {
        assert(visible(cv, clip, octant_point(cx, cy, r, 0, 3).0, octant_point(cx, cy, r, 0, 3).1));
        assert(cv2.at(octant_point(cx, cy, r, 0, 3).0, octant_point(cx, cy, r, 0, 3).1) == c);
        lemma_changes_keep(cv2, out, c, region, cx - r, cy);
    }
    if visible(cv, clip, cx, cy + r) {
        assert(visible(cv, clip, octant_point(cx, cy, r, 0, 1).0, octant_point(cx, cy, r, 0, 1).1));
        assert(cv2.at(octant_point(cx, cy, r, 0, 1).0, octant_point(cx, cy, r, 0, 1).1) == c);
        lemma_changes_keep(cv2, out, c, region, cx, cy + r);
    }
    if visible(cv, clip, cx, cy - r) {
        assert(visible(cv, clip, octant_point(cx, cy, r, 0, 5).0, octant_point(cx, cy, r, 0, 5).1));
        assert(cv2.at(octant_point(cx, cy, r, 0, 5).0, octant_point(cx, cy, r, 0, 5).1) == c);
        lemma_changes_keep(cv2, out, c, region, cx, cy - r);
    }
}

} // verus!
