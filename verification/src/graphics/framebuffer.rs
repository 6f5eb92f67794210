//! Framebuffer: drawing and text rendering.
//!
//! Pixel format XRGB8888 (LE u32): `0x00RRGGBB`.

use vstd::prelude::*;
use font8x8::UnicodeFonts;
use vstd::string::StrSliceExecFns;

verus! {

/// A pixel colour in XRGB8888 form (`0x00RRGGBB`).
#[derive(Clone, Copy, PartialEq, Eq, Structural, Debug)]
pub struct Color(pub u32);

/// The packed XRGB8888 word of the channels `r`, `g`, `b`.
pub open spec fn rgb_word(r: u8, g: u8, b: u8) -> int {
    (r as int) * 0x10000 + (g as int) * 0x100 + (b as int)
}

pub open spec fn black_word() -> u32 {
    rgb_word(0x10, 0x12, 0x18) as u32
}

pub open spec fn white_word() -> u32 {
    rgb_word(0xff, 0xff, 0xff) as u32
}

pub open spec fn zamin_bg_word() -> u32 {
    rgb_word(0x0a, 0x18, 0x2e) as u32
}

pub open spec fn zamin_fg_word() -> u32 {
    rgb_word(0xfd, 0xc4, 0x35) as u32
}

pub open spec fn accent_word() -> u32 {
    rgb_word(0x29, 0xb6, 0xf6) as u32
}

pub open spec fn success_word() -> u32 {
    rgb_word(0x66, 0xbb, 0x6a) as u32
}

pub open spec fn muted_word() -> u32 {
    rgb_word(0x90, 0xa4, 0xae) as u32
}

impl Color {
    /// Packs three 8-bit channels into one XRGB8888 colour.
    pub fn rgb(r: u8, g: u8, b: u8) -> (c: Color)
        ensures
            c.0 == rgb_word(r, g, b),
    {
        let c = ((r as u32) << 16) | ((g as u32) << 8) | (b as u32);
        assert(c == (r as u32) * 0x10000u32 + (g as u32) * 0x100u32 + (b as u32)) by (bit_vector)
            requires
                c == ((r as u32) << 16) | ((g as u32) << 8) | (b as u32),
        ;
        Color(c)
    }

    /// Near-black background.
    pub fn black() -> (c: Color)
        ensures
            c.0 == black_word(),
    {
        Color::rgb(0x10, 0x12, 0x18)
    }

    pub fn white() -> (c: Color)
        ensures
            c.0 == white_word(),
    {
        Color::rgb(0xff, 0xff, 0xff)
    }

    /// Deep blue.
    pub fn zamin_bg() -> (c: Color)
        ensures
            c.0 == zamin_bg_word(),
    {
        Color::rgb(0x0a, 0x18, 0x2e)
    }

    /// Golden yellow.
    pub fn zamin_fg() -> (c: Color)
        ensures
            c.0 == zamin_fg_word(),
    {
        Color::rgb(0xfd, 0xc4, 0x35)
    }

    /// Sky blue.
    pub fn accent() -> (c: Color)
        ensures
            c.0 == accent_word(),
    {
        Color::rgb(0x29, 0xb6, 0xf6)
    }

    /// Green.
    pub fn success() -> (c: Color)
        ensures
            c.0 == success_word(),
    {
        Color::rgb(0x66, 0xbb, 0x6a)
    }

    /// Grey.
    pub fn muted() -> (c: Color)
        ensures
            c.0 == muted_word(),
    {
        Color::rgb(0x90, 0xa4, 0xae)
    }
}

/// What a framebuffer shows: its size and its pixels, row after row.
pub struct Canvas {
    pub width: nat,
    pub height: nat,
    pub pixels: Seq<u32>,
}

/// Whether column `col` of pattern row `row` is set; the leftmost column is bit 7 of the
/// row when `msb` holds, bit 0 otherwise.
pub open spec fn glyph_bit(g: Seq<u8>, msb: bool, row: int, col: int) -> bool {
    g[row] & (1u8 << ((if msb { 7 - col } else { col }) as u8)) != 0u8
}

/// Whether pixel (`px`, `py`) lies in the cell of a set bit among the first `n` bits
/// (row-major) of glyph `g` drawn at (`gx`, `gy`) with cells of side `s`.
pub open spec fn glyph_covers(g: Seq<u8>, msb: bool, gx: int, gy: int, s: int, px: int, py: int, n: int) -> bool {
    exists|r: int, c: int|
        #![trigger glyph_bit(g, msb, r, c)]
        0 <= r < 8 && 0 <= c < 8 && r * 8 + c < n && glyph_bit(g, msb, r, c) && gx + c * s <= px < gx
            + c * s + s && gy + r * s <= py < gy + r * s + s
}

/// Whether pixel (`px`, `py`) is covered by one of the first `n` characters of `text`
/// drawn from (`x`, `y`), each character advancing `8 * s` pixels to the right.
pub open spec fn text_covers(text: Seq<char>, x: int, y: int, s: int, px: int, py: int, n: int) -> bool {
    exists|i: int|
        #![trigger text[i]]
        0 <= i < n && (text[i] as u32) < 128 && glyph_covers(
            basic_font_glyph(text[i]),
            false,
            x + 8 * s * i,
            y,
            s,
            px,
            py,
            64,
        )
}

impl Canvas {
    /// The pixel buffer holds exactly `width * height` pixels and every index fits in a `u32`.
    pub open spec fn wf(self) -> bool {
        &&& self.pixels.len() == self.width * self.height
        &&& self.width * self.height <= 0x1_0000_0000
    }

    /// Column of the pixel at buffer index `k`.
    pub open spec fn col_of(self, k: int) -> int {
        k % (self.width as int)
    }

    /// Row of the pixel at buffer index `k`.
    pub open spec fn row_of(self, k: int) -> int {
        k / (self.width as int)
    }

    /// The pixel at column `x`, row `y`.
    pub open spec fn at(self, x: int, y: int) -> u32 {
        self.pixels[y * self.width + x]
    }

    /// This canvas with every pixel whose index satisfies `covered` set to `c`.
    pub open spec fn paint(self, covered: spec_fn(int) -> bool, c: u32) -> Canvas {
        Canvas {
            width: self.width,
            height: self.height,
            pixels: Seq::new(self.pixels.len(), |k: int| if covered(k) { c } else { self.pixels[k] }),
        }
    }

    /// Whether the pixel at index `k` lies in the rectangle at (`x`, `y`) of size `w` x `h`.
    pub open spec fn in_rect(self, k: int, x: int, y: int, w: int, h: int) -> bool {
        &&& x <= self.col_of(k) < x + w
        &&& y <= self.row_of(k) < y + h
    }

    /// Pixel (`x`, `y`) set to `c` when it is on the canvas.
    pub open spec fn put(self, x: int, y: int, c: u32) -> Canvas {
        if 0 <= x < self.width && 0 <= y < self.height {
            Canvas {
                width: self.width,
                height: self.height,
                pixels: self.pixels.update(y * self.width + x, c),
            }
        } else {
            self
        }
    }

    /// The part of the rectangle at (`x`, `y`) of size `w` x `h` that is on the canvas, set to `c`.
    pub open spec fn fill_rect(self, x: int, y: int, w: int, h: int, c: u32) -> Canvas {
        self.paint(|k: int| self.in_rect(k, x, y, w, h), c)
    }

    /// Every pixel set to `c`.
    pub open spec fn clear(self, c: u32) -> Canvas {
        self.paint(|k: int| true, c)
    }

    /// The first `n` bits of glyph `g` drawn at (`x`, `y`) in colour `fg` with cells of side `s`.
    pub open spec fn glyph(self, x: int, y: int, g: Seq<u8>, msb: bool, fg: u32, s: int, n: int) -> Canvas {
        self.paint(|k: int| glyph_covers(g, msb, x, y, s, self.col_of(k), self.row_of(k), n), fg)
    }

    /// Character `ch` drawn at (`x`, `y`) from the basic font; characters without a glyph draw nothing.
    pub open spec fn draw_char(self, x: int, y: int, ch: char, fg: u32, s: int) -> Canvas {
        if (ch as u32) < 128 {
            self.glyph(x, y, basic_font_glyph(ch), false, fg, s, 64)
        } else {
            self
        }
    }

    /// The first `n` characters of `text` drawn from (`x`, `y`).
    pub open spec fn text_prefix(self, x: int, y: int, text: Seq<char>, fg: u32, s: int, n: int) -> Canvas {
        self.paint(|k: int| text_covers(text, x, y, s, self.col_of(k), self.row_of(k), n), fg)
    }

    /// `text` drawn from (`x`, `y`), one `8 * s` pixel wide cell per character.
    pub open spec fn text(self, x: int, y: int, text: Seq<char>, fg: u32, s: int) -> Canvas {
        self.text_prefix(x, y, text, fg, s, text.len() as int)
    }
}

/// The left edge at which `n` characters of scale `s` are centred on a screen `width` wide.
pub open spec fn centered_x(width: int, n: int, s: int) -> int {
    if 8 * s * n <= width {
        (width - 8 * s * n) / 2
    } else {
        0
    }
}

/// The glyph that the basic font of `font8x8` holds for `c`: eight rows, bit `i` of a row
/// being column `i`.
pub uninterp spec fn basic_font_glyph(c: char) -> Seq<u8>;

/// Looks `c` up in `font8x8::BASIC_FONTS` (`UnicodeFonts::get`). Trusted: the table holds the
/// code points U+0000..=U+007F in order, so a glyph comes back exactly for those; the bits of
/// each glyph are named by `basic_font_glyph`, not stated.
#[verifier::external_body]
fn basic_font_get(c: char) -> (g: Option<[u8; 8]>)
    ensures
        g is Some <==> (c as u32) < 128,
        g matches Some(b) ==> b@ == basic_font_glyph(c),
{
    font8x8::BASIC_FONTS.get(c)
}

/// Buffer index `k` of rows `w` wide is column `k % w` of row `k / w`.
pub proof fn lemma_index_split(w: int, k: int)
    requires
        w > 0,
        k >= 0,
    ensures
        k == (k / w) * w + k % w,
        0 <= k % w < w,
        k / w >= 0,
{
    vstd::arithmetic::div_mod::lemma_fundamental_div_mod(k, w);
    vstd::arithmetic::mul::lemma_mul_is_commutative(w, k / w);
    vstd::arithmetic::div_mod::lemma_mod_bound(k, w);
    vstd::arithmetic::div_mod::lemma_div_pos_is_pos(k, w);
}

/// Column `x` of row `y` is buffer index `y * w + x`, which splits back into `x` and `y`.
pub proof fn lemma_index_join(w: int, x: int, y: int)
    requires
        w > 0,
        0 <= x < w,
    ensures
        (y * w + x) % w == x,
        (y * w + x) / w == y,
{
    vstd::arithmetic::div_mod::lemma_fundamental_div_mod_converse(y * w + x, w, y, x);
}

/// Buffer index `k` of a `w` x `h` canvas names column `k % w` of row `k / w`.
pub proof fn lemma_cell(w: int, h: int, k: int)
    requires
        0 <= w,
        0 <= h,
        0 <= k < w * h,
    ensures
        w > 0,
        0 <= k / w < h,
        0 <= k % w < w,
        k == (k / w) * w + k % w,
{
    lemma_index_split(w, k);
    let q = k / w;
    if q >= h {
        assert(q * w >= h * w) by (nonlinear_arith)
            requires
                q >= h,
                w > 0,
        ;
        assert(h * w == w * h) by (nonlinear_arith);
    }
}

/// The index of (`x`, `y`) on a canvas lies inside its buffer.
pub proof fn lemma_index_bound(w: int, h: int, x: int, y: int)
    requires
        0 <= x < w,
        0 <= y < h,
    ensures
        0 <= y * w + x < w * h,
{
    assert(0 <= y * w + x < w * h) by (nonlinear_arith)
        requires
            0 <= x < w,
            0 <= y < h,
    ;
}

/// Setting one pixel is filling the 1 x 1 rectangle at it.
pub proof fn lemma_put_is_fill(cv: Canvas, x: int, y: int, c: u32)
    requires
        cv.wf(),
    ensures
        cv.put(x, y, c) == cv.fill_rect(x, y, 1, 1, c),
{
    let f = cv.fill_rect(x, y, 1, 1, c);
    if 0 <= x < cv.width && 0 <= y < cv.height {
        lemma_index_bound(cv.width as int, cv.height as int, x, y);
        lemma_index_join(cv.width as int, x, y);
        assert forall|k: int| 0 <= k < cv.pixels.len() implies cv.put(x, y, c).pixels[k]
            == f.pixels[k] by {
            lemma_cell(cv.width as int, cv.height as int, k);
        }
        assert(cv.put(x, y, c).pixels =~= f.pixels);
    } else {
        assert forall|k: int| 0 <= k < cv.pixels.len() implies cv.pixels[k] == f.pixels[k] by {
            lemma_cell(cv.width as int, cv.height as int, k);
        }
        assert(cv.pixels =~= f.pixels);
    }
}

/// Drawing one more bit of a glyph fills that bit's cell when the bit is set.
pub proof fn lemma_glyph_step(
    cv: Canvas,
    x: int,
    y: int,
    g: Seq<u8>,
    msb: bool,
    fg: u32,
    s: int,
    r: int,
    c: int,
)
    requires
        0 <= r < 8,
        0 <= c < 8,
    ensures
        cv.glyph(x, y, g, msb, fg, s, r * 8 + c + 1) == if glyph_bit(g, msb, r, c) {
            cv.glyph(x, y, g, msb, fg, s, r * 8 + c).fill_rect(x + c * s, y + r * s, s, s, fg)
        } else {
            cv.glyph(x, y, g, msb, fg, s, r * 8 + c)
        },
{
    let n = r * 8 + c;
    let next = cv.glyph(x, y, g, msb, fg, s, n + 1);
    let prev = cv.glyph(x, y, g, msb, fg, s, n);
    if glyph_bit(g, msb, r, c) {
        let filled = prev.fill_rect(x + c * s, y + r * s, s, s, fg);
        assert forall|k: int| 0 <= k < cv.pixels.len() implies next.pixels[k] == filled.pixels[k] by {
            let px = cv.col_of(k);
            let py = cv.row_of(k);
            if glyph_covers(g, msb, x, y, s, px, py, n + 1) {
                let (r1, c1) = choose|r1: int, c1: int|
                    0 <= r1 < 8 && 0 <= c1 < 8 && r1 * 8 + c1 < n + 1 && glyph_bit(g, msb, r1, c1) && x
                        + c1 * s <= px < x + c1 * s + s && y + r1 * s <= py < y + r1 * s + s;
            }
            if glyph_covers(g, msb, x, y, s, px, py, n) {
                let (r1, c1) = choose|r1: int, c1: int|
                    0 <= r1 < 8 && 0 <= c1 < 8 && r1 * 8 + c1 < n && glyph_bit(g, msb, r1, c1) && x + c1
                        * s <= px < x + c1 * s + s && y + r1 * s <= py < y + r1 * s + s;
            }
        }
        assert(next.pixels =~= filled.pixels);
    } else {
        assert forall|k: int| 0 <= k < cv.pixels.len() implies next.pixels[k] == prev.pixels[k] by {
            let px = cv.col_of(k);
            let py = cv.row_of(k);
            if glyph_covers(g, msb, x, y, s, px, py, n + 1) {
                let (r1, c1) = choose|r1: int, c1: int|
                    0 <= r1 < 8 && 0 <= c1 < 8 && r1 * 8 + c1 < n + 1 && glyph_bit(g, msb, r1, c1) && x
                        + c1 * s <= px < x + c1 * s + s && y + r1 * s <= py < y + r1 * s + s;
            }
            if glyph_covers(g, msb, x, y, s, px, py, n) {
                let (r1, c1) = choose|r1: int, c1: int|
                    0 <= r1 < 8 && 0 <= c1 < 8 && r1 * 8 + c1 < n && glyph_bit(g, msb, r1, c1) && x + c1
                        * s <= px < x + c1 * s + s && y + r1 * s <= py < y + r1 * s + s;
            }
        }
        assert(next.pixels =~= prev.pixels);
    }
}

/// No bit drawn leaves the canvas as it was.
pub proof fn lemma_glyph_zero(cv: Canvas, x: int, y: int, g: Seq<u8>, msb: bool, fg: u32, s: int)
    ensures
        cv.glyph(x, y, g, msb, fg, s, 0) == cv,
{
    assert(cv.glyph(x, y, g, msb, fg, s, 0).pixels =~= cv.pixels);
}

/// Drawing one more character of a text draws that character over the shorter text.
pub proof fn lemma_text_step(cv: Canvas, x: int, y: int, text: Seq<char>, fg: u32, s: int, i: int)
    requires
        0 <= i < text.len(),
    ensures
        cv.text_prefix(x, y, text, fg, s, i + 1) == cv.text_prefix(x, y, text, fg, s, i).draw_char(
            x + 8 * s * i,
            y,
            text[i],
            fg,
            s,
        ),
{
    let next = cv.text_prefix(x, y, text, fg, s, i + 1);
    let prev = cv.text_prefix(x, y, text, fg, s, i);
    let drawn = prev.draw_char(x + 8 * s * i, y, text[i], fg, s);
    assert forall|k: int| 0 <= k < cv.pixels.len() implies next.pixels[k] == drawn.pixels[k] by {
        let px = cv.col_of(k);
        let py = cv.row_of(k);
        if text_covers(text, x, y, s, px, py, i + 1) {
            let j = choose|j: int|
                0 <= j < i + 1 && (text[j] as u32) < 128 && glyph_covers(
                    basic_font_glyph(text[j]),
                    false,
                    x + 8 * s * j,
                    y,
                    s,
                    px,
                    py,
                    64,
                );
        }
        if text_covers(text, x, y, s, px, py, i) {
            let j = choose|j: int|
                0 <= j < i && (text[j] as u32) < 128 && glyph_covers(
                    basic_font_glyph(text[j]),
                    false,
                    x + 8 * s * j,
                    y,
                    s,
                    px,
                    py,
                    64,
                );
        }
        if (text[i] as u32) < 128 && glyph_covers(
            basic_font_glyph(text[i]),
            false,
            x + 8 * s * i,
            y,
            s,
            px,
            py,
            64,
        ) {
        }
    }
    assert(next.pixels =~= drawn.pixels);
}

/// No character drawn leaves the canvas as it was.
pub proof fn lemma_text_zero(cv: Canvas, x: int, y: int, text: Seq<char>, fg: u32, s: int)
    ensures
        cv.text_prefix(x, y, text, fg, s, 0) == cv,
{
    assert(cv.text_prefix(x, y, text, fg, s, 0).pixels =~= cv.pixels);
}

/// The channels packed by `rgb` come back out of the colour word.
pub proof fn law_rgb_channels(r: u8, g: u8, b: u8)
    ensures
        rgb_word(r, g, b) / 0x10000 == r,
        (rgb_word(r, g, b) / 0x100) % 0x100 == g,
        rgb_word(r, g, b) % 0x100 == b,
        rgb_word(r, g, b) < 0x100_0000,
{
}

/// Filling a rectangle sets exactly the pixels of the rectangle that are on the canvas and
/// leaves every other pixel as it was; clearing sets every pixel.
pub proof fn law_fill_rect_region(cv: Canvas, x: int, y: int, w: int, h: int, c: u32, px: int, py: int)
    requires
        cv.wf(),
        0 <= px < cv.width,
        0 <= py < cv.height,
    ensures
        cv.fill_rect(x, y, w, h, c).wf(),
        cv.fill_rect(x, y, w, h, c).at(px, py) == if x <= px < x + w && y <= py < y + h {
            c
        } else {
            cv.at(px, py)
        },
        cv.clear(c).at(px, py) == c,
{
    lemma_index_bound(cv.width as int, cv.height as int, px, py);
    lemma_index_join(cv.width as int, px, py);
}

/// Setting a pixel changes that pixel alone.
pub proof fn law_put_single(cv: Canvas, x: int, y: int, c: u32, px: int, py: int)
    requires
        cv.wf(),
        0 <= px < cv.width,
        0 <= py < cv.height,
    ensures
        cv.put(x, y, c).at(px, py) == if px == x && py == y { c } else { cv.at(px, py) },
{
    lemma_index_bound(cv.width as int, cv.height as int, px, py);
    if 0 <= x < cv.width && 0 <= y < cv.height {
        lemma_index_bound(cv.width as int, cv.height as int, x, y);
        lemma_index_join(cv.width as int, px, py);
        lemma_index_join(cv.width as int, x, y);
    }
}

/// Drawing a concatenation is drawing its parts one after the other, the second part
/// starting `8 * s` pixels per character of the first further right; drawing nothing
/// changes nothing.
pub proof fn law_text_concat(cv: Canvas, x: int, y: int, a: Seq<char>, b: Seq<char>, fg: u32, s: int)
    ensures
        cv.text(x, y, a + b, fg, s) == cv.text(x, y, a, fg, s).text(x + 8 * s * a.len(), y, b, fg, s),
        cv.text(x, y, Seq::<char>::empty(), fg, s) == cv,
{
    let ab = a + b;
    let xb = x + 8 * s * a.len();
    let lhs = cv.text(x, y, ab, fg, s);
    let mid = cv.text(x, y, a, fg, s);
    let rhs = mid.text(xb, y, b, fg, s);
    assert forall|k: int| 0 <= k < cv.pixels.len() implies lhs.pixels[k] == rhs.pixels[k] by {
        let px = cv.col_of(k);
        let py = cv.row_of(k);
        if text_covers(ab, x, y, s, px, py, ab.len() as int) {
            let i = choose|i: int|
                0 <= i < ab.len() && (ab[i] as u32) < 128 && glyph_covers(
                    basic_font_glyph(ab[i]),
                    false,
                    x + 8 * s * i,
                    y,
                    s,
                    px,
                    py,
                    64,
                );
            if i < a.len() {
                assert(ab[i] == a[i]);
                assert(text_covers(a, x, y, s, px, py, a.len() as int));
            } else {
                let j = i - a.len();
                assert(ab[i] == b[j]);
                assert(x + 8 * s * i == xb + 8 * s * j) by (nonlinear_arith)
                    requires
                        xb == x + 8 * s * a.len(),
                        j == i - a.len(),
                ;
                assert(text_covers(b, xb, y, s, px, py, b.len() as int));
            }
        }
        if text_covers(a, x, y, s, px, py, a.len() as int) {
            let i = choose|i: int|
                0 <= i < a.len() && (a[i] as u32) < 128 && glyph_covers(
                    basic_font_glyph(a[i]),
                    false,
                    x + 8 * s * i,
                    y,
                    s,
                    px,
                    py,
                    64,
                );
            assert(ab[i] == a[i]);
            assert(text_covers(ab, x, y, s, px, py, ab.len() as int));
        }
        if text_covers(b, xb, y, s, px, py, b.len() as int) {
            let j = choose|j: int|
                0 <= j < b.len() && (b[j] as u32) < 128 && glyph_covers(
                    basic_font_glyph(b[j]),
                    false,
                    xb + 8 * s * j,
                    y,
                    s,
                    px,
                    py,
                    64,
                );
            let i = j + a.len();
            assert(ab[i] == b[j]);
            assert(x + 8 * s * i == xb + 8 * s * j) by (nonlinear_arith)
                requires
                    xb == x + 8 * s * a.len(),
                    i == j + a.len(),
            ;
            assert(text_covers(ab, x, y, s, px, py, ab.len() as int));
        }
    }
    assert(lhs.pixels =~= rhs.pixels);
    assert(cv.text(x, y, Seq::<char>::empty(), fg, s).pixels =~= cv.pixels);
}

/// Centred text starts half the room left over, or at 0 when the text is wider than the
/// screen: `width.saturating_sub(8 * s * n) / 2` for `n` characters.
pub proof fn law_text_centered(width: int, n: int, s: int)
    ensures
        centered_x(width, n, s) == (if width >= 8 * s * n { width - 8 * s * n } else { 0 }) / 2,
{
}

/// Text changes only pixels inside its box: `8 * s` pixels high and `8 * s` wide per
/// character, from (`x`, `y`); every pixel it changes takes the text colour.
pub proof fn law_text_in_box(cv: Canvas, x: int, y: int, text: Seq<char>, fg: u32, s: int, px: int, py: int)
    requires
        cv.wf(),
        s >= 0,
        0 <= px < cv.width,
        0 <= py < cv.height,
    ensures
        !(x <= px < x + 8 * s * text.len() && y <= py < y + 8 * s) ==> cv.text(x, y, text, fg, s).at(
            px,
            py,
        ) == cv.at(px, py),
        cv.text(x, y, text, fg, s).at(px, py) == cv.at(px, py) || cv.text(x, y, text, fg, s).at(px, py)
            == fg,
{
    let k = py * cv.width + px;
    lemma_index_bound(cv.width as int, cv.height as int, px, py);
    lemma_index_join(cv.width as int, px, py);
    if text_covers(text, x, y, s, px, py, text.len() as int) {
        let i = choose|i: int|
            0 <= i < text.len() && (text[i] as u32) < 128 && glyph_covers(
                basic_font_glyph(text[i]),
                false,
                x + 8 * s * i,
                y,
                s,
                px,
                py,
                64,
            );
        let g = basic_font_glyph(text[i]);
        let (r, c) = choose|r: int, c: int|
            0 <= r < 8 && 0 <= c < 8 && r * 8 + c < 64 && glyph_bit(g, false, r, c) && x + 8 * s * i
                + c * s <= px < x + 8 * s * i + c * s + s && y + r * s <= py < y + r * s + s;
        assert(c * s + s <= 8 * s) by (nonlinear_arith)
            requires
                c < 8,
                s >= 0,
        ;
        assert(r * s + s <= 8 * s) by (nonlinear_arith)
            requires
                r < 8,
                s >= 0,
        ;
        assert(c * s >= 0 && r * s >= 0) by (nonlinear_arith)
            requires
                c >= 0,
                r >= 0,
                s >= 0,
        ;
        assert(8 * s * i + 8 * s <= 8 * s * text.len()) by (nonlinear_arith)
            requires
                i < text.len(),
                s >= 0,
        ;
        assert(8 * s * i >= 0) by (nonlinear_arith)
            requires
                i >= 0,
                s >= 0,
        ;
    }
}

/// A pixel buffer `width` pixels wide and `height` high, rows stored one after another.
pub struct Framebuffer {
    pixels: Vec<u32>,
    width: u32,
    height: u32,
}

impl View for Framebuffer {
    type V = Canvas;

    closed spec fn view(&self) -> Canvas {
        Canvas { width: self.width as nat, height: self.height as nat, pixels: self.pixels@ }
    }
}

impl Framebuffer {
    /// A framebuffer `width` x `height` over `pixels`, which are kept as they are. Drawing
    /// needs `pixels` to hold exactly `width * height` pixels (`Canvas::wf`).
    pub fn new(pixels: Vec<u32>, width: u32, height: u32) -> (fb: Self)
        ensures
            fb@ == (Canvas { width: width as nat, height: height as nat, pixels: pixels@ }),
            fb@.wf() == (pixels@.len() == width * height && width * height <= 0x1_0000_0000),
    {
        Self { pixels, width, height }
    }

    pub fn width(&self) -> (w: u32)
        ensures
            w == self@.width,
    {
        self.width
    }

    pub fn height(&self) -> (h: u32)
        ensures
            h == self@.height,
    {
        self.height
    }

    /// The pixels, row after row.
    pub fn pixels(&self) -> (p: &[u32])
        ensures
            p@ == self@.pixels,
    {
        self.pixels.as_slice()
    }

    /// Sets pixel (`x`, `y`) to `c`; a pixel off the screen is ignored.
    pub fn put(&mut self, x: u32, y: u32, c: Color)
        requires
            old(self)@.wf(),
        ensures
            final(self)@ == old(self)@.put(x as int, y as int, c.0),
            final(self)@.wf(),
    {
        if x < self.width && y < self.height {
            proof {
                lemma_index_bound(self.width as int, self.height as int, x as int, y as int);
            }
            let idx = y * self.width + x;
            self.pixels.set(idx as usize, c.0);
        }
    }

    /// Sets every pixel to `c`.
    pub fn clear(&mut self, c: Color)
        requires
            old(self)@.wf(),
        ensures
            final(self)@ == old(self)@.clear(c.0),
            final(self)@.wf(),
    {
        let ghost start = self@;
        let n = self.pixels.len();
        let mut i: usize = 0;
        while i < n
            invariant
                n == self.pixels@.len(),
                n == start.pixels.len(),
                self.width == start.width,
                self.height == start.height,
                0 <= i <= n,
                forall|k: int| 0 <= k < i ==> self.pixels@[k] == c.0,
                forall|k: int| i <= k < n ==> self.pixels@[k] == start.pixels[k],
            decreases n - i,
        {
            self.pixels.set(i, c.0);
            i += 1;
        }
        assert(self@.pixels =~= start.clear(c.0).pixels);
    }

    /// Fills the part of the `w` x `h` rectangle at (`x`, `y`) that is on the screen with `c`.
    pub fn fill_rect(&mut self, x: u32, y: u32, w: u32, h: u32, c: Color)
        requires
            old(self)@.wf(),
            x + w <= u32::MAX,
            y + h <= u32::MAX,
        ensures
            final(self)@ == old(self)@.fill_rect(x as int, y as int, w as int, h as int, c.0),
            final(self)@.wf(),
    {
        let ghost start = self@;
        let ghost wd = self.width as int;
        let x_end = if x + w < self.width {
            x + w
        } else {
            self.width
        };
        let y_end = if y + h < self.height {
            y + h
        } else {
            self.height
        };
        let mut j = y;
        while j < y_end
            invariant
                self@.wf(),
                self.width == start.width,
                self.height == start.height,
                wd == self.width,
                self.pixels@.len() == start.pixels.len(),
                x_end <= self.width,
                x_end == x + w || x_end == self.width,
                x_end <= x + w,
                y_end <= self.height,
                y_end == y + h || y_end == self.height,
                y <= j,
                j <= y_end || j == y,
                forall|k: int|
                    0 <= k < self.pixels@.len() ==> #[trigger] self.pixels@[k] == if x <= k % wd < x
                        + w && y <= k / wd < j {
                        c.0
                    } else {
                        start.pixels[k]
                    },
            decreases y_end - j,
        {
            let mut i = x;
            while i < x_end
                invariant
                    self@.wf(),
                    self.width == start.width,
                    self.height == start.height,
                    wd == self.width,
                    self.pixels@.len() == start.pixels.len(),
                    x_end <= self.width,
                    x_end == x + w || x_end == self.width,
                    x_end <= x + w,
                    y <= j < y_end,
                    y_end <= self.height,
                    x <= i,
                    i <= x_end || i == x,
                    forall|k: int|
                        0 <= k < self.pixels@.len() ==> #[trigger] self.pixels@[k] == if (x <= k % wd
                            < x + w && y <= k / wd < j) || (k / wd == j && x <= k % wd < i) {
                            c.0
                        } else {
                            start.pixels[k]
                        },
                decreases x_end - i,
            {
                proof {
                    lemma_index_bound(wd, self.height as int, i as int, j as int);
                    lemma_index_join(wd, i as int, j as int);
                }
                let idx = j * self.width + i;
                self.pixels.set(idx as usize, c.0);
                proof {
                    assert forall|k: int| 0 <= k < self.pixels@.len() implies #[trigger] self.pixels@[k]
                        == if (x <= k % wd < x + w && y <= k / wd < j) || (k / wd == j && x <= k % wd
                        < i + 1) {
                        c.0
                    } else {
                        start.pixels[k]
                    } by {
                        if k != idx {
                            if k / wd == j && k % wd == i {
                                lemma_cell(wd, self.height as int, k);
                            }
                        }
                    }
                }
                i += 1;
            }
            proof {
                assert forall|k: int| 0 <= k < self.pixels@.len() implies #[trigger] self.pixels@[k]
                    == if x <= k % wd < x + w && y <= k / wd < j + 1 {
                    c.0
                } else {
                    start.pixels[k]
                } by {
                    lemma_cell(wd, self.height as int, k);
                    let in_old = x <= k % wd < x + w && y <= k / wd < j;
                    let in_row = k / wd == j && x <= k % wd < i;
                    assert(self.pixels@[k] == if in_old || in_row {
                        c.0
                    } else {
                        start.pixels[k]
                    });
                }
            }
            j += 1;
        }
        proof {
            assert forall|k: int| 0 <= k < self.pixels@.len() implies self.pixels@[k] == start.fill_rect(
                x as int,
                y as int,
                w as int,
                h as int,
                c.0,
            ).pixels[k] by {
                lemma_cell(wd, self.height as int, k);
            }
            assert(self@.pixels =~= start.fill_rect(x as int, y as int, w as int, h as int, c.0).pixels);
        }
    }

    /// Draws the 8x8 basic-font glyph of `ch` at (`x`, `y`) in `fg`, each glyph pixel a
    /// `scale` x `scale` square; a character without a glyph draws nothing.
    pub fn draw_char(&mut self, x: u32, y: u32, ch: char, fg: Color, scale: u32)
        requires
            old(self)@.wf(),
            (ch as u32) < 128 ==> x + 8 * scale <= u32::MAX,
            (ch as u32) < 128 ==> y + 8 * scale <= u32::MAX,
        ensures
            final(self)@ == old(self)@.draw_char(x as int, y as int, ch, fg.0, scale as int),
            final(self)@.wf(),
    {
        let ghost start = self@;
        let glyph = match basic_font_get(ch) {
            Some(g) => g,
            None => return ,
        };
        let ghost g = glyph@;
        proof {
            lemma_glyph_zero(start, x as int, y as int, g, false, fg.0, scale as int);
        }
        let mut row: usize = 0;
        while row < 8
            invariant
                0 <= row <= 8,
                self@.wf(),
                self@.width == start.width,
                self@.height == start.height,
                g == glyph@,
                x + 8 * scale <= u32::MAX,
                y + 8 * scale <= u32::MAX,
                self@ == start.glyph(x as int, y as int, g, false, fg.0, scale as int, row * 8),
            decreases 8 - row,
        {
            let byte = glyph[row];
            let mut col: u32 = 0;
            while col < 8
                invariant
                    0 <= row < 8,
                    0 <= col <= 8,
                    self@.wf(),
                    self@.width == start.width,
                    self@.height == start.height,
                    g == glyph@,
                    byte == g[row as int],
                    x + 8 * scale <= u32::MAX,
                    y + 8 * scale <= u32::MAX,
                    self@ == start.glyph(x as int, y as int, g, false, fg.0, scale as int, row * 8 + col),
                decreases 8 - col,
            {
                proof {
                    lemma_glyph_step(
                        start,
                        x as int,
                        y as int,
                        g,
                        false,
                        fg.0,
                        scale as int,
                        row as int,
                        col as int,
                    );
                }
                let mask: u8 = 1u8 << (col as u8);
                if byte & mask != 0 {
                    assert((col + 1) * scale <= 8 * scale) by (nonlinear_arith)
                        requires
                            col < 8,
                    ;
                    assert((row + 1) * scale <= 8 * scale) by (nonlinear_arith)
                        requires
                            row < 8,
                    ;
                    assert((col + 1) * scale == col * scale + scale) by (nonlinear_arith);
                    assert((row + 1) * scale == row * scale + scale) by (nonlinear_arith);
                    let px = x + col * scale;
                    let py = y + (row as u32) * scale;
                    if scale == 1 {
                        proof {
                            lemma_put_is_fill(self@, px as int, py as int, fg.0);
                        }
                        self.put(px, py, fg);
                    } else {
                        self.fill_rect(px, py, scale, scale, fg);
                    }
                }
                col += 1;
            }
            row += 1;
        }
    }

    /// Draws `s` from (`x`, `y`), one `8 * scale` pixel wide cell per character.
    pub fn draw_text(&mut self, x: u32, y: u32, s: &str, fg: Color, scale: u32)
        requires
            old(self)@.wf(),
            x + 8 * scale * s@.len() <= u32::MAX,
            s@.len() > 0 ==> y + 8 * scale <= u32::MAX,
        ensures
            final(self)@ == old(self)@.text(x as int, y as int, s@, fg.0, scale as int),
            final(self)@.wf(),
    {
        let ghost start = self@;
        let n = s.unicode_len();
        proof {
            lemma_text_zero(start, x as int, y as int, s@, fg.0, scale as int);
        }
        let mut cx = x;
        let mut i: usize = 0;
        while i < n
            invariant
                n == s@.len(),
                0 <= i <= n,
                self@.wf(),
                self@.width == start.width,
                self@.height == start.height,
                cx == x + 8 * scale * i,
                x + 8 * scale * n <= u32::MAX,
                n > 0 ==> y + 8 * scale <= u32::MAX,
                self@ == start.text_prefix(x as int, y as int, s@, fg.0, scale as int, i as int),
            decreases n - i,
        {
            assert(8 * scale * (i + 1) <= 8 * scale * n) by (nonlinear_arith)
                requires
                    i < n,
            ;
            assert(8 * scale * (i + 1) == 8 * scale * i + 8 * scale) by (nonlinear_arith);
            let ch = s.get_char(i);
            proof {
                lemma_text_step(start, x as int, y as int, s@, fg.0, scale as int, i as int);
            }
            self.draw_char(cx, y, ch, fg, scale);
            cx += 8 * scale;
            i += 1;
        }
    }

    /// Draws `s` on row `y`, centred horizontally on the screen.
    pub fn draw_text_centered(&mut self, y: u32, s: &str, fg: Color, scale: u32)
        requires
            old(self)@.wf(),
            8 * s@.len() <= u32::MAX,
            8 * scale * s@.len() <= u32::MAX,
            s@.len() > 0 ==> y + 8 * scale <= u32::MAX,
        ensures
            final(self)@ == old(self)@.text(
                centered_x(old(self)@.width as int, s@.len() as int, scale as int),
                y as int,
                s@,
                fg.0,
                scale as int,
            ),
            final(self)@.wf(),
    {
        let n = s.unicode_len();
        let count = n as u32;
        assert(8 * scale * n == count * 8 * scale) by (nonlinear_arith)
            requires
                count == n,
        ;
        let text_w = count * 8 * scale;
        let x = self.width.saturating_sub(text_w) / 2;
        self.draw_text(x, y, s, fg, scale);
    }

    /// A horizontal line `w` pixels long starting at (`x`, `y`).
    pub fn hline(&mut self, x: u32, y: u32, w: u32, c: Color)
        requires
            old(self)@.wf(),
            x + w <= u32::MAX,
            y + 1 <= u32::MAX,
        ensures
            final(self)@ == old(self)@.fill_rect(x as int, y as int, w as int, 1, c.0),
            final(self)@.wf(),
    {
        self.fill_rect(x, y, w, 1, c);
    }

    /// A vertical line `h` pixels long starting at (`x`, `y`).
    pub fn vline(&mut self, x: u32, y: u32, h: u32, c: Color)
        requires
            old(self)@.wf(),
            x + 1 <= u32::MAX,
            y + h <= u32::MAX,
        ensures
            final(self)@ == old(self)@.fill_rect(x as int, y as int, 1, h as int, c.0),
            final(self)@.wf(),
    {
        self.fill_rect(x, y, 1, h, c);
    }
}

} // verus!
