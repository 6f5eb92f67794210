use zaminos::graphics::framebuffer::{Color, Framebuffer};
use zaminos::graphics::raster::walk_line;
use zaminos::ui::apps::clock;
use zaminos::ui::apps::clock::{draw_circle, thick_line};
use zaminos::ui::apps::paint::draw_line;
use zaminos::ui::desktop::{draw_square_glyph, draw_x_glyph};
use zaminos::ui::icons::draw_house;

fn blank(w: u32, h: u32) -> Framebuffer {
    Framebuffer::new(vec![0u32; (w * h) as usize], w, h)
}

fn px(fb: &Framebuffer, x: u32, y: u32) -> u32 {
    fb.pixels()[(y * fb.width() + x) as usize]
}

/// The set pixels of `fb`, row by row.
fn lit(fb: &Framebuffer) -> Vec<(u32, u32)> {
    let mut v = Vec::new();
    for y in 0..fb.height() {
        for x in 0..fb.width() {
            if px(fb, x, y) != 0 {
                v.push((x, y));
            }
        }
    }
    v
}

#[test]
fn rgb_packs_channels() {
    assert_eq!(Color::rgb(0x12, 0x34, 0x56), Color(0x0012_3456));
    assert_eq!(Color::rgb(0, 0, 0).0, 0);
    assert_eq!(Color::rgb(0xff, 0xff, 0xff).0, 0x00ff_ffff);
}

#[test]
fn named_colours() {
    assert_eq!(Color::black().0, 0x0010_1218);
    assert_eq!(Color::white().0, 0x00ff_ffff);
    assert_eq!(Color::zamin_bg().0, 0x000a_182e);
    assert_eq!(Color::zamin_fg().0, 0x00fd_c435);
    assert_eq!(Color::accent().0, 0x0029_b6f6);
    assert_eq!(Color::success().0, 0x0066_bb6a);
    assert_eq!(Color::muted().0, 0x0090_a4ae);
}

#[test]
fn new_framebuffer_keeps_size_and_pixels() {
    let fb = Framebuffer::new(vec![7u32; 6], 3, 2);
    assert_eq!(fb.width(), 3);
    assert_eq!(fb.height(), 2);
    assert_eq!(fb.pixels(), &[7u32; 6][..]);
}

#[test]
fn put_sets_one_pixel_and_ignores_off_screen() {
    let mut fb = blank(4, 3);
    fb.put(2, 1, Color(5));
    assert_eq!(lit(&fb), vec![(2, 1)]);
    assert_eq!(px(&fb, 2, 1), 5);
    fb.put(4, 0, Color(9));
    fb.put(0, 3, Color(9));
    fb.put(u32::MAX, u32::MAX, Color(9));
    assert_eq!(lit(&fb), vec![(2, 1)]);
}

#[test]
fn clear_sets_every_pixel() {
    let mut fb = blank(3, 3);
    fb.put(1, 1, Color(4));
    fb.clear(Color(8));
    assert!(fb.pixels().iter().all(|&p| p == 8));
}

#[test]
fn fill_rect_is_clipped_to_screen() {
    let mut fb = blank(4, 3);
    fb.fill_rect(2, 1, 5, 5, Color(1));
    assert_eq!(lit(&fb), vec![(2, 1), (3, 1), (2, 2), (3, 2)]);
    let mut fb = blank(4, 3);
    fb.fill_rect(1, 0, 0, 3, Color(1));
    fb.fill_rect(9, 9, 3, 3, Color(1));
    assert!(lit(&fb).is_empty());
}

#[test]
fn hline_and_vline() {
    let mut fb = blank(5, 5);
    fb.hline(1, 2, 3, Color(1));
    assert_eq!(lit(&fb), vec![(1, 2), (2, 2), (3, 2)]);
    let mut fb = blank(5, 5);
    fb.vline(4, 3, 10, Color(1));
    assert_eq!(lit(&fb), vec![(4, 3), (4, 4)]);
}

#[test]
fn draw_char_uses_basic_font_lsb_left() {
    // 'A' is 0C 1E 33 33 3F 33 33 00 in the basic font; bit i is column i.
    let rows: [u8; 8] = [0x0C, 0x1E, 0x33, 0x33, 0x3F, 0x33, 0x33, 0x00];
    let mut fb = blank(8, 8);
    fb.draw_char(0, 0, 'A', Color(3), 1);
    for y in 0..8u32 {
        for x in 0..8u32 {
            let on = rows[y as usize] & (1 << x) != 0;
            assert_eq!(px(&fb, x, y), if on { 3 } else { 0 }, "pixel ({}, {})", x, y);
        }
    }
}

#[test]
fn draw_char_scales_each_bit_to_a_square() {
    let mut fb = blank(16, 16);
    fb.draw_char(0, 0, 'A', Color(3), 2);
    // row 0 of 'A' has columns 2 and 3 set: pixels 4..8 of rows 0 and 1
    for x in 0..16u32 {
        let on = (4..8).contains(&x);
        assert_eq!(px(&fb, x, 0), if on { 3 } else { 0 });
        assert_eq!(px(&fb, x, 1), if on { 3 } else { 0 });
    }
}

#[test]
fn draw_char_without_glyph_draws_nothing() {
    let mut fb = blank(8, 8);
    fb.draw_char(0, 0, 'é', Color(3), 1);
    fb.draw_char(0, 0, ' ', Color(3), 1);
    assert!(lit(&fb).is_empty());
}

#[test]
fn draw_text_advances_eight_pixels_per_char() {
    let mut one = blank(16, 8);
    one.draw_char(8, 0, 'A', Color(2), 1);
    let mut two = blank(16, 8);
    two.draw_text(0, 0, " A", Color(2), 1);
    assert_eq!(one.pixels(), two.pixels());
}

#[test]
fn draw_text_centered_centres_by_char_count() {
    let mut a = blank(20, 8);
    a.draw_text_centered(0, "A", Color(2), 1);
    let mut b = blank(20, 8);
    b.draw_char(6, 0, 'A', Color(2), 1);
    assert_eq!(a.pixels(), b.pixels());
    // too wide: starts at 0
    let mut c = blank(20, 8);
    c.draw_text_centered(0, "AAA", Color(2), 1);
    let mut d = blank(20, 8);
    d.draw_text(0, 0, "AAA", Color(2), 1);
    assert_eq!(c.pixels(), d.pixels());
}

#[test]
fn line_horizontal_and_diagonal() {
    let mut fb = blank(5, 5);
    clock::line(&mut fb, 0, 0, 3, 0, Color(1));
    assert_eq!(lit(&fb), vec![(0, 0), (1, 0), (2, 0), (3, 0)]);
    let mut fb = blank(5, 5);
    clock::line(&mut fb, 2, 2, 0, 0, Color(1));
    assert_eq!(lit(&fb), vec![(0, 0), (1, 1), (2, 2)]);
}

#[test]
fn line_steep_bresenham_points() {
    let mut fb = blank(5, 5);
    clock::line(&mut fb, 0, 0, 1, 3, Color(1));
    assert_eq!(lit(&fb), vec![(0, 0), (0, 1), (1, 2), (1, 3)]);
}

#[test]
fn line_clips_off_screen_points() {
    let mut fb = blank(5, 1);
    clock::line(&mut fb, -2, 0, 2, 0, Color(1));
    assert_eq!(lit(&fb), vec![(0, 0), (1, 0), (2, 0)]);
    let mut fb = blank(5, 1);
    clock::line(&mut fb, 3, 0, 9, 0, Color(1));
    assert_eq!(lit(&fb), vec![(3, 0), (4, 0)]);
}

#[test]
fn line_endpoints_are_drawn() {
    let mut fb = blank(10, 10);
    clock::line(&mut fb, 1, 8, 7, 2, Color(1));
    assert_eq!(px(&fb, 1, 8), 1);
    assert_eq!(px(&fb, 7, 2), 1);
}

#[test]
fn walk_line_keeps_clip_rectangle() {
    let mut fb = blank(6, 3);
    walk_line(&mut fb, 0, 1, 5, 1, Color(1), 2, 0, 2, 3);
    assert_eq!(lit(&fb), vec![(2, 1), (3, 1)]);
}

#[test]
fn draw_line_keeps_canvas_rectangle() {
    let mut fb = blank(5, 2);
    draw_line(&mut fb, 0, 0, 4, 0, Color(1), 1, 0, 2, 1);
    assert_eq!(lit(&fb), vec![(1, 0), (2, 0)]);
}

#[test]
fn thick_line_of_one_point_is_a_square() {
    let mut fb = blank(5, 5);
    thick_line(&mut fb, 2, 2, 2, 2, Color(1));
    let mut want = Vec::new();
    for y in 1..4 {
        for x in 1..4 {
            want.push((x, y));
        }
    }
    assert_eq!(lit(&fb), want);
}

#[test]
fn circle_radius_one_and_two() {
    let mut fb = blank(5, 5);
    draw_circle(&mut fb, 2, 2, 1, Color(1));
    assert_eq!(lit(&fb), vec![(2, 1), (1, 2), (3, 2), (2, 3)]);
    let mut fb = blank(7, 7);
    draw_circle(&mut fb, 3, 3, 2, Color(1));
    assert_eq!(
        lit(&fb),
        vec![(3, 1), (2, 2), (4, 2), (1, 3), (5, 3), (2, 4), (4, 4), (3, 5)]
    );
}

#[test]
fn circle_clips_off_screen_points() {
    let mut fb = blank(3, 3);
    draw_circle(&mut fb, 0, 0, 1, Color(1));
    assert_eq!(lit(&fb), vec![(1, 0), (0, 1)]);
}

#[test]
fn cross_glyph_diagonals() {
    let mut fb = blank(5, 5);
    draw_x_glyph(&mut fb, 0, 0, 5, Color(1));
    let mut want = Vec::new();
    for y in 0..5u32 {
        for x in 0..5u32 {
            if x == y || x + y == 4 {
                want.push((x, y));
            }
        }
    }
    assert_eq!(lit(&fb), want);
    let mut fb = blank(5, 5);
    draw_x_glyph(&mut fb, 3, 3, 3, Color(1));
    assert_eq!(lit(&fb), vec![(3, 3), (4, 4)]);
    let mut fb = blank(5, 5);
    draw_x_glyph(&mut fb, 1, 1, 0, Color(1));
    assert!(lit(&fb).is_empty());
}

#[test]
fn square_glyph_outline() {
    let mut fb = blank(5, 5);
    draw_square_glyph(&mut fb, 1, 1, 3, Color(1));
    assert_eq!(
        lit(&fb),
        vec![(1, 1), (2, 1), (3, 1), (1, 2), (3, 2), (1, 3), (2, 3), (3, 3)]
    );
}

#[test]
fn house_pictogram() {
    let mut fb = blank(12, 12);
    draw_house(&mut fb, 0, 0, 12);
    // (x range, y range) of each filled rectangle
    let rects: [((u32, u32), (u32, u32)); 9] = [
        ((5, 7), (0, 1)),
        ((5, 7), (1, 2)),
        ((3, 9), (2, 3)),
        ((2, 10), (3, 4)),
        ((2, 10), (4, 6)),
        ((2, 4), (4, 12)),
        ((8, 10), (4, 12)),
        ((2, 10), (10, 12)),
        ((5, 7), (8, 12)),
    ];
    for y in 0..12u32 {
        for x in 0..12u32 {
            let on = rects.iter().any(|((x0, x1), (y0, y1))| *x0 <= x && x < *x1 && *y0 <= y && y < *y1);
            assert_eq!(px(&fb, x, y), if on { Color::white().0 } else { 0 }, "pixel ({}, {})", x, y);
        }
    }
}

#[test]
fn framebuffer_keeps_any_buffer() {
    let fb = Framebuffer::new(vec![1u32, 2, 3], 4, 4);
    assert_eq!((fb.width(), fb.height()), (4, 4));
    assert_eq!(fb.pixels(), &[1u32, 2, 3][..]);
}

#[test]
fn empty_text_draws_nothing_anywhere() {
    let mut fb = blank(4, 4);
    fb.draw_text(0, u32::MAX, "", Color(1), 1);
    fb.draw_text_centered(u32::MAX, "", Color(1), 3);
    assert!(lit(&fb).is_empty());
}

#[test]
fn text_concatenation_is_parts_in_turn() {
    let mut whole = blank(40, 8);
    whole.draw_text(1, 0, "AB C", Color(2), 1);
    let mut parts = blank(40, 8);
    parts.draw_text(1, 0, "AB", Color(2), 1);
    parts.draw_text(17, 0, " C", Color(2), 1);
    assert_eq!(whole.pixels(), parts.pixels());
}

#[test]
fn line_touches_only_its_clip_and_both_ends() {
    let mut fb = blank(10, 10);
    walk_line(&mut fb, 0, 9, 9, 2, Color(1), 0, 0, 10, 10);
    assert_eq!(px(&fb, 0, 9), 1);
    assert_eq!(px(&fb, 9, 2), 1);
    let mut fb = blank(10, 10);
    walk_line(&mut fb, 0, 0, 9, 9, Color(1), 3, 3, 4, 4);
    assert!(lit(&fb).iter().all(|&(x, y)| (3..7).contains(&x) && (3..7).contains(&y)));
    assert_eq!(lit(&fb).len(), 4);
}

#[test]
fn circle_stays_in_its_box_and_sets_axis_points() {
    let mut fb = blank(30, 30);
    draw_circle(&mut fb, 14, 15, 9, Color(1));
    for &(x, y) in lit(&fb).iter() {
        assert!((x as i32 - 14).abs() <= 9 && (y as i32 - 15).abs() <= 9);
    }
    for (x, y) in [(23, 15), (5, 15), (14, 24), (14, 6)] {
        assert_eq!(px(&fb, x, y), 1);
    }
}

#[test]
fn char_without_glyph_needs_no_room() {
    let mut fb = blank(4, 4);
    fb.draw_char(u32::MAX, u32::MAX, 'é', Color(1), 4);
    assert!(lit(&fb).is_empty());
}
