//! The framebuffer that the game draws into, with rectangles and a bitmap font.
use vstd::prelude::*;
use crate::font::{centered_x, lemma_text_covers_step, lemma_utf8_len, text_covers, text_covers_first, text_fits, text_width, glyph, glyph_bit, glyph_covers, glyph_covers_first, glyph_fits, glyph_rows, lemma_glyph_covers_step};
use vstd::string::StringSliceAdditionalSpecFns;
use crate::frame::{Frame, in_rect, lemma_index_in_range, lemma_with_pixel_pixel, lemma_eq_from_fn, lemma_from_fn_pixel};

verus! {

/// The width of the game's window, in pixels.
pub const WIDTH: usize = 800;

/// The height of the game's window, in pixels.
pub const HEIGHT: usize = 600;

/// A framebuffer of `width * height` colours (`0xRRGGBB`), row after row.
pub struct Engine {
    buffer: Vec<u32>,
    width: usize,
    height: usize,
}

impl View for Engine {
    type V = Frame;

    closed spec fn view(&self) -> Frame {
        Frame { width: self.width as nat, height: self.height as nat, pixels: self.buffer@ }
    }
}

impl Engine {
    /// The buffer holds one colour for each pixel.
    pub open spec fn wf(&self) -> bool {
        &&& self@.wf()
        &&& self@.pixels.len() <= usize::MAX
        &&& self@.width <= usize::MAX
        &&& self@.height <= usize::MAX
    }

    /// A black framebuffer of the given size.
    pub fn new(width: usize, height: usize) -> (r: Engine)
        requires
            width * height <= usize::MAX,
        ensures
            r.wf(),
            r@.width == width,
            r@.height == height,
            r@.pixels == Seq::new((width * height) as nat, |i: int| 0u32),
    {
        let n = width * height;
        let mut buffer: Vec<u32> = Vec::new();
        let mut i: usize = 0;
        while i < n
            invariant
                i <= n,
                buffer@ == Seq::new(i as nat, |k: int| 0u32),
            decreases n - i,
        {
            buffer.push(0);
            i = i + 1;
        }
        Engine { buffer, width, height }
    }

    pub fn width(&self) -> (r: usize)
        ensures
            r == self@.width,
    {
        self.width
    }

    pub fn height(&self) -> (r: usize)
        ensures
            r == self@.height,
    {
        self.height
    }

    /// The pixels, row after row, as a window shows them.
    pub fn buffer(&self) -> (r: &[u32])
        ensures
            r@ == self@.pixels,
    {
        self.buffer.as_slice()
    }

    /// The colour at column `x`, row `y`.
    pub fn pixel(&self, x: usize, y: usize) -> (r: u32)
        requires
            self.wf(),
            x < self@.width,
            y < self@.height,
        ensures
            r == self@.pixel(x as int, y as int),
    {
        proof {
            lemma_index_in_range(self.width as int, self.height as int, x as int, y as int);
        }
        self.buffer[y * self.width + x]
    }

    /// Sets every pixel to `color`.
    pub fn clear(&mut self, color: u32)
        requires
            old(self).wf(),
        ensures
            final(self).wf(),
            final(self)@ == old(self)@.filled(color),
    {
        let n = self.buffer.len();
        let mut i: usize = 0;
        while i < n
            invariant
                n == self.buffer@.len(),
                i <= n,
                self.width == old(self).width,
                self.height == old(self).height,
                self.buffer@.len() == old(self).buffer@.len(),
                forall|k: int| 0 <= k < i ==> self.buffer@[k] == color,
            decreases n - i,
        {
            self.buffer.set(i, color);
            i = i + 1;
        }
        assert(self.buffer@ =~= old(self)@.filled(color).pixels);
    }

    /// Sets the pixel at column `x`, row `y`; a point outside the frame is ignored.
    pub fn draw_pixel(&mut self, x: usize, y: usize, color: u32)
        requires
            old(self).wf(),
        ensures
            final(self).wf(),
            final(self)@ == old(self)@.with_pixel(x as int, y as int, color),
    {
        if x < self.width && y < self.height {
            proof {
                lemma_index_in_range(self.width as int, self.height as int, x as int, y as int);
            }
            self.buffer.set(y * self.width + x, color);
        }
    }

    /// Fills the rectangle of corner `(x, y)`, `w` wide and `h` high; the part
    /// outside the frame is ignored.
    pub fn draw_rect(&mut self, x: usize, y: usize, w: usize, h: usize, color: u32)
        requires
            old(self).wf(),
            w == 0 || h == 0 || (x + w - 1 <= usize::MAX && y + h - 1 <= usize::MAX),
        ensures
            final(self).wf(),
            final(self)@ == old(self)@.with_rect(x as int, y as int, w as int, h as int, color),
    {
        let ghost start = self@;
        for i in 0..w
            invariant
                self.wf(),
                self@.same_size(start),
                start.wf(),
                w == 0 || h == 0 || (x + w - 1 <= usize::MAX && y + h - 1 <= usize::MAX),
                forall|px: int, py: int|
                    #![trigger self@.pixel(px, py)]
                    self@.in_bounds(px, py) ==> self@.pixel(px, py) == if in_rect(
                        px,
                        py,
                        x as int,
                        y as int,
                        i as int,
                        h as int,
                    ) {
                        color
                    } else {
                        start.pixel(px, py)
                    },
        {
            for j in 0..h
                invariant
                    self.wf(),
                    self@.same_size(start),
                    start.wf(),
                    i < w,
                    h == 0 || (x + w - 1 <= usize::MAX && y + h - 1 <= usize::MAX),
                    forall|px: int, py: int|
                        #![trigger self@.pixel(px, py)]
                        self@.in_bounds(px, py) ==> self@.pixel(px, py) == if in_rect(
                            px,
                            py,
                            x as int,
                            y as int,
                            i as int,
                            h as int,
                        ) || (px == x + i && y <= py < y + j) {
                            color
                        } else {
                            start.pixel(px, py)
                        },
            {
                let ghost before = self@;
                self.draw_pixel(x + i, y + j, color);
                proof {
                    assert forall|px: int, py: int| self@.in_bounds(px, py) implies #[trigger] self@.pixel(
                        px,
                        py,
                    ) == if in_rect(px, py, x as int, y as int, i as int, h as int) || (px == x + i
                        && y <= py < y + j + 1) {
                        color
                    } else {
                        start.pixel(px, py)
                    } by {
                        lemma_with_pixel_pixel(before, (x + i) as int, (y + j) as int, color, px, py);
                    }
                }
            }
            proof {
                assert forall|px: int, py: int| self@.in_bounds(px, py) implies #[trigger] self@.pixel(
                    px,
                    py,
                ) == if in_rect(px, py, x as int, y as int, i + 1, h as int) {
                    color
                } else {
                    start.pixel(px, py)
                } by {}
            }
        }
        proof {
            let f = |px: int, py: int|
                if in_rect(px, py, x as int, y as int, w as int, h as int) {
                    color
                } else {
                    start.pixel(px, py)
                };
            assert forall|px: int, py: int| self@.in_bounds(px, py) implies #[trigger] self@.pixel(
                px,
                py,
            ) == f(px, py) by {}
            lemma_eq_from_fn(self@, f);
        }
    }

    /// Draws the glyph of `c` (letters upper-case) with its top-left corner at
    /// `(x, y)`, each cell a `scale` by `scale` square.
    pub fn draw_char(&mut self, x: usize, y: usize, c: char, color: u32, scale: usize)
        requires
            old(self).wf(),
            glyph_fits(c, x as int, y as int, scale as int),
        ensures
            final(self).wf(),
            final(self)@ == old(self)@.with_char(c, x as int, y as int, color, scale as int),
    {
        let pixels = glyph(c);
        let ghost start = self@;
        for row in 0..5usize
            invariant
                self.wf(),
                self@.same_size(start),
                start.wf(),
                pixels@ == glyph_rows(c),
                glyph_fits(c, x as int, y as int, scale as int),
                forall|px: int, py: int|
                    #![trigger self@.pixel(px, py)]
                    self@.in_bounds(px, py) ==> self@.pixel(px, py) == if glyph_covers_first(
                        c,
                        x as int,
                        y as int,
                        scale as int,
                        row * 3,
                        px,
                        py,
                    ) {
                        color
                    } else {
                        start.pixel(px, py)
                    },
        {
            for col in 0..3usize
                invariant
                    row < 5,
                    self.wf(),
                    self@.same_size(start),
                    start.wf(),
                    pixels@ == glyph_rows(c),
                    glyph_fits(c, x as int, y as int, scale as int),
                    forall|px: int, py: int|
                        #![trigger self@.pixel(px, py)]
                        self@.in_bounds(px, py) ==> self@.pixel(px, py) == if glyph_covers_first(
                            c,
                            x as int,
                            y as int,
                            scale as int,
                            row * 3 + col,
                            px,
                            py,
                        ) {
                            color
                        } else {
                            start.pixel(px, py)
                        },
            {
                let ghost before = self@;
                if (pixels[row] >> (2 - col)) & 1 == 1 {
                    assert(glyph_bit(c, row as int, col as int));
                    assert(x + (col + 1) * scale <= usize::MAX + 1);
                    assert(y + (row + 1) * scale <= usize::MAX + 1);
                    assert(x + col * scale <= usize::MAX && (scale == 0 || x + col * scale + scale
                        - 1 <= usize::MAX)) by (nonlinear_arith)
                        requires
                            x + (col + 1) * scale <= usize::MAX + 1,
                            0 <= x,
                            0 <= col,
                            0 <= scale,
                    ;
                    assert(y + row * scale <= usize::MAX && (scale == 0 || y + row * scale + scale
                        - 1 <= usize::MAX)) by (nonlinear_arith)
                        requires
                            y + (row + 1) * scale <= usize::MAX + 1,
                            0 <= y,
                            0 <= row,
                            0 <= scale,
                    ;
                    self.draw_rect(x + col * scale, y + row * scale, scale, scale, color);
                    proof {
                        assert forall|px: int, py: int| self@.in_bounds(px, py) implies #[trigger] self@.pixel(
                            px,
                            py,
                        ) == if glyph_covers_first(
                            c,
                            x as int,
                            y as int,
                            scale as int,
                            row * 3 + col + 1,
                            px,
                            py,
                        ) {
                            color
                        } else {
                            start.pixel(px, py)
                        } by {
                            lemma_glyph_covers_step(
                                c,
                                x as int,
                                y as int,
                                scale as int,
                                row as int,
                                col as int,
                                px,
                                py,
                            );
                            lemma_from_fn_pixel(
                                before.width,
                                before.height,
                                |qx: int, qy: int|
                                    if in_rect(
                                        qx,
                                        qy,
                                        x + col * scale,
                                        y + row * scale,
                                        scale as int,
                                        scale as int,
                                    ) {
                                        color
                                    } else {
                                        before.pixel(qx, qy)
                                    },
                                px,
                                py,
                            );
                        }
                    }
                } else {
                    proof {
                        assert(!glyph_bit(c, row as int, col as int));
                        assert forall|px: int, py: int| self@.in_bounds(px, py) implies #[trigger] self@.pixel(
                            px,
                            py,
                        ) == if glyph_covers_first(
                            c,
                            x as int,
                            y as int,
                            scale as int,
                            row * 3 + col + 1,
                            px,
                            py,
                        ) {
                            color
                        } else {
                            start.pixel(px, py)
                        } by {
                            lemma_glyph_covers_step(
                                c,
                                x as int,
                                y as int,
                                scale as int,
                                row as int,
                                col as int,
                                px,
                                py,
                            );
                        }
                    }
                }
            }
        }
        proof {
            let f = |px: int, py: int|
                if glyph_covers(c, x as int, y as int, scale as int, px, py) {
                    color
                } else {
                    start.pixel(px, py)
                };
            assert forall|px: int, py: int| self@.in_bounds(px, py) implies #[trigger] self@.pixel(
                px,
                py,
            ) == f(px, py) by {}
            lemma_eq_from_fn(self@, f);
        }
    }

    /// The width in pixels of `s` drawn with cells of side `scale`, counted as
    /// four cells for each byte of its UTF-8 form, less one cell.
    pub fn get_string_width(&self, s: &str, scale: usize) -> (r: usize)
        requires
            s@.len() == 0 || (s.spec_bytes().len() * 4 <= usize::MAX && s.spec_bytes().len() * 4 * scale
                <= usize::MAX),
        ensures
            r == text_width(s.spec_bytes().len() as int, scale as int),
    {
        proof {
            lemma_utf8_len(s@);
        }
        if s.is_empty() {
            0
        } else {
            let n = s.len();
            let ghost bytes = s.spec_bytes().len();
            assert(scale > 0 ==> bytes <= usize::MAX) by (nonlinear_arith)
                requires
                    bytes * 4 * scale <= usize::MAX,
            ;
            assert(n == bytes);
            assert(n * 4 * scale >= scale && (scale > 0 ==> n * 4 * scale - scale == bytes * 4
                * scale - scale)) by (nonlinear_arith)
                requires
                    scale > 0 ==> n == bytes,
                    bytes >= 1,
            ;
            (n * 4 * scale) - scale
        }
    }

    /// Draws `s` from `(x, y)`, one glyph every `4 * scale` pixels.
    pub fn draw_string(&mut self, x: usize, y: usize, s: &str, color: u32, scale: usize)
        requires
            old(self).wf(),
            text_fits(s@, x as int, y as int, scale as int),
        ensures
            final(self).wf(),
            final(self)@ == old(self)@.with_text(s@, x as int, y as int, color, scale as int),
    {
        let ghost start = self@;
        let mut curr_x = x;
        for c in it: s.chars()
            invariant
                self.wf(),
                self@.same_size(start),
                start.wf(),
                text_fits(s@, x as int, y as int, scale as int),
                it.seq() == s@,
                curr_x == x + 4 * scale * it.index(),
                forall|px: int, py: int|
                    #![trigger self@.pixel(px, py)]
                    self@.in_bounds(px, py) ==> self@.pixel(px, py) == if text_covers_first(
                        s@,
                        x as int,
                        y as int,
                        scale as int,
                        it.index(),
                        px,
                        py,
                    ) {
                        color
                    } else {
                        start.pixel(px, py)
                    },
        {
            let ghost k = it.index();
            let ghost before = self@;
            assert(c == s@[k]);
            self.draw_char(curr_x, y, c, color, scale);
            assert(x + 4 * scale * (k + 1) <= x + s@.len() * 4 * scale) by (nonlinear_arith)
                requires
                    k + 1 <= s@.len(),
                    scale >= 0,
            ;
            assert(4 * scale * (k + 1) == 4 * scale * k + 4 * scale) by (nonlinear_arith);
            curr_x += 4 * scale;
            proof {
                assert forall|px: int, py: int| self@.in_bounds(px, py) implies #[trigger] self@.pixel(
                    px,
                    py,
                ) == if text_covers_first(s@, x as int, y as int, scale as int, k + 1, px, py) {
                    color
                } else {
                    start.pixel(px, py)
                } by {
                    lemma_text_covers_step(s@, x as int, y as int, scale as int, k, px, py);
                    lemma_from_fn_pixel(
                        before.width,
                        before.height,
                        |qx: int, qy: int|
                            if glyph_covers(c, (x + 4 * scale * k) as int, y as int, scale as int, qx, qy) {
                                color
                            } else {
                                before.pixel(qx, qy)
                            },
                        px,
                        py,
                    );
                }
            }
        }
        proof {
            let f = |px: int, py: int|
                if text_covers(s@, x as int, y as int, scale as int, px, py) {
                    color
                } else {
                    start.pixel(px, py)
                };
            assert forall|px: int, py: int| self@.in_bounds(px, py) implies #[trigger] self@.pixel(
                px,
                py,
            ) == f(px, py) by {}
            lemma_eq_from_fn(self@, f);
        }
    }

    /// Draws `s` at height `y`, centred across the frame by
    /// `get_string_width`, or from the left edge when it is wider.
    pub fn draw_string_centered(&mut self, y: usize, s: &str, color: u32, scale: usize)
        requires
            old(self).wf(),
            s@.len() == 0 || (s.spec_bytes().len() * 4 <= usize::MAX && s.spec_bytes().len() * 4 * scale
                <= usize::MAX),
            text_fits(
                s@,
                centered_x(
                    old(self)@.width as int,
                    text_width(s.spec_bytes().len() as int, scale as int),
                ),
                y as int,
                scale as int,
            ),
        ensures
            final(self).wf(),
            final(self)@ == old(self)@.with_text(
                s@,
                centered_x(
                    old(self)@.width as int,
                    text_width(s.spec_bytes().len() as int, scale as int),
                ),
                y as int,
                color,
                scale as int,
            ),
    {
        let width = self.get_string_width(s, scale);
        let x = if self.width > width {
            (self.width - width) / 2
        } else {
            0
        };
        self.draw_string(x, y, s, color, scale);
    }
}

} // verus!
