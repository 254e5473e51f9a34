//! The mathematical model of a framebuffer: a width, a height, and the
//! pixels stored row after row.
use vstd::prelude::*;
use vstd::arithmetic::div_mod::lemma_fundamental_div_mod;
use vstd::arithmetic::div_mod::lemma_fundamental_div_mod_converse;

verus! {

/// A frame as pixels: `pixels[y * width + x]` is the colour at column `x`, row `y`.
pub struct Frame {
    pub width: nat,
    pub height: nat,
    pub pixels: Seq<u32>,
}

/// Whether `(px, py)` lies in the rectangle of corner `(x, y)`, `w` wide and `h` high.
pub open spec fn in_rect(px: int, py: int, x: int, y: int, w: int, h: int) -> bool {
    x <= px < x + w && y <= py < y + h
}

impl Frame {
    /// One pixel for each cell of the grid.
    pub open spec fn wf(self) -> bool {
        self.pixels.len() == self.width * self.height
    }

    pub open spec fn in_bounds(self, x: int, y: int) -> bool {
        0 <= x < self.width && 0 <= y < self.height
    }

    /// The colour at column `x`, row `y`.
    pub open spec fn pixel(self, x: int, y: int) -> u32 {
        self.pixels[y * self.width + x]
    }

    /// Whether two frames have the same width and height.
    pub open spec fn same_size(self, other: Frame) -> bool {
        self.width == other.width && self.height == other.height
    }

    /// The frame of the given size whose pixel at `(x, y)` is `f(x, y)`.
    pub open spec fn from_fn(width: nat, height: nat, f: spec_fn(int, int) -> u32) -> Frame {
        Frame {
            width,
            height,
            pixels: Seq::new(width * height, |i: int| f(i % (width as int), i / (width as int))),
        }
    }

    /// This frame with one pixel set; a point outside the frame changes nothing.
    pub open spec fn with_pixel(self, x: int, y: int, color: u32) -> Frame {
        if self.in_bounds(x, y) {
            Frame { pixels: self.pixels.update(y * self.width + x, color), ..self }
        } else {
            self
        }
    }

    /// This frame with every pixel set to `color`.
    pub open spec fn filled(self, color: u32) -> Frame {
        Frame { pixels: Seq::new(self.pixels.len(), |i: int| color), ..self }
    }

    /// This frame with the part of the rectangle that lies inside it set to `color`.
    pub open spec fn with_rect(self, x: int, y: int, w: int, h: int, color: u32) -> Frame {
        Frame::from_fn(
            self.width,
            self.height,
            |px: int, py: int|
                if in_rect(px, py, x, y, w, h) {
                    color
                } else {
                    self.pixel(px, py)
                },
        )
    }
}

/// The cell `(x, y)` of a grid `w` wide and `h` high is stored at `y * w + x`,
/// inside the grid's storage.
pub proof fn lemma_index_in_range(w: int, h: int, x: int, y: int)
    requires
        0 <= x < w,
        0 <= y < h,
    ensures
        0 <= y * w + x < w * h,
        0 <= y * w,
{
    assert(0 <= y * w) by (nonlinear_arith)
        requires
            0 <= y,
            0 <= w,
    ;
    assert(y * w + x < w * h) by (nonlinear_arith)
        requires
            0 <= x < w,
            0 <= y < h,
    ;
}

/// Distinct cells of a grid are stored at distinct places.
pub proof fn lemma_index_unique(w: int, x1: int, y1: int, x2: int, y2: int)
    requires
        0 <= x1 < w,
        0 <= x2 < w,
        0 <= y1,
        0 <= y2,
        y1 * w + x1 == y2 * w + x2,
    ensures
        x1 == x2,
        y1 == y2,
{
    lemma_fundamental_div_mod_converse(y1 * w + x1, w, y1, x1);
    lemma_fundamental_div_mod_converse(y2 * w + x2, w, y2, x2);
}

/// The pixel of `from_fn` is what the function gives.
pub proof fn lemma_from_fn_pixel(width: nat, height: nat, f: spec_fn(int, int) -> u32, x: int, y: int)
    requires
        0 <= x < width,
        0 <= y < height,
    ensures
        Frame::from_fn(width, height, f).pixel(x, y) == f(x, y),
        Frame::from_fn(width, height, f).wf(),
{
    lemma_index_in_range(width as int, height as int, x, y);
    lemma_fundamental_div_mod_converse(y * width + x, width as int, y, x);
}

/// A well-formed frame whose every pixel is `f(x, y)` is `from_fn(f)`.
pub proof fn lemma_eq_from_fn(a: Frame, f: spec_fn(int, int) -> u32)
    requires
        a.wf(),
        forall|x: int, y: int| a.in_bounds(x, y) ==> #[trigger] a.pixel(x, y) == f(x, y),
    ensures
        a == Frame::from_fn(a.width, a.height, f),
{
    let b = Frame::from_fn(a.width, a.height, f);
    let w = a.width as int;
    assert forall|i: int| 0 <= i < a.pixels.len() implies a.pixels[i] == b.pixels[i] by {
        lemma_fundamental_div_mod(i, w);
        let x = i % w;
        let y = i / w;
        assert(0 <= x < w);
        assert(0 <= y) by (nonlinear_arith)
            requires
                0 <= i,
                0 < w,
                y == i / w,
        ;
        assert(y < a.height) by (nonlinear_arith)
            requires
                i < w * a.height,
                i == w * y + x,
                0 <= x,
                0 < w,
        ;
        assert(i == y * w + x) by (nonlinear_arith)
            requires
                i == w * (i / w) + i % w,
                x == i % w,
                y == i / w,
        ;
        assert(a.pixel(x, y) == f(x, y));
    }
    assert(a.pixels =~= b.pixels);
}

/// The pixel of a frame after one pixel was set.
pub proof fn lemma_with_pixel_pixel(f: Frame, x: int, y: int, color: u32, px: int, py: int)
    requires
        f.wf(),
        f.in_bounds(px, py),
    ensures
        f.with_pixel(x, y, color).wf(),
        f.with_pixel(x, y, color).pixel(px, py) == if px == x && py == y {
            color
        } else {
            f.pixel(px, py)
        },
{
    lemma_index_in_range(f.width as int, f.height as int, px, py);
    if f.in_bounds(x, y) {
        lemma_index_in_range(f.width as int, f.height as int, x, y);
        if py * f.width + px == y * f.width + x {
            lemma_index_unique(f.width as int, px, py, x, y);
        }
    }
}

/// Law: setting a pixel inside the frame gives that pixel the colour and
/// leaves every other pixel as it was; a point outside changes nothing.
pub proof fn law_set_pixel(f: Frame, x: int, y: int, color: u32, px: int, py: int)
    requires
        f.wf(),
        0 <= px < f.width,
        0 <= py < f.height,
    ensures
        f.with_pixel(x, y, color).pixel(px, py) == if px == x && py == y {
            color
        } else {
            f.pixel(px, py)
        },
        !(0 <= x < f.width && 0 <= y < f.height) ==> f.with_pixel(x, y, color) == f,
        f.with_pixel(x, y, color).width == f.width,
        f.with_pixel(x, y, color).height == f.height,
{
    lemma_with_pixel_pixel(f, x, y, color, px, py);
}

/// Law: after a fill every pixel of the frame has the colour.
pub proof fn law_fill(f: Frame, color: u32, px: int, py: int)
    requires
        f.wf(),
        0 <= px < f.width,
        0 <= py < f.height,
    ensures
        f.filled(color).pixel(px, py) == color,
        f.filled(color).width == f.width,
        f.filled(color).height == f.height,
{
    lemma_index_in_range(f.width as int, f.height as int, px, py);
}

/// Law: a rectangle gives the colour to exactly the pixels of the frame
/// with `x <= px < x + w` and `y <= py < y + h`; the others keep theirs.
pub proof fn law_rect(f: Frame, x: int, y: int, w: int, h: int, color: u32, px: int, py: int)
    requires
        0 <= px < f.width,
        0 <= py < f.height,
    ensures
        f.with_rect(x, y, w, h, color).pixel(px, py) == if x <= px && px < x + w && y <= py && py
            < y + h {
            color
        } else {
            f.pixel(px, py)
        },
        f.with_rect(x, y, w, h, color).width == f.width,
        f.with_rect(x, y, w, h, color).height == f.height,
{
    lemma_from_fn_pixel(
        f.width,
        f.height,
        |qx: int, qy: int|
            if in_rect(qx, qy, x, y, w, h) {
                color
            } else {
                f.pixel(qx, qy)
            },
        px,
        py,
    );
}

} // verus!
