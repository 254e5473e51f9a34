//! The 3x5 bitmap font: which cells of each glyph are lit.
use vstd::prelude::*;
use crate::frame::{Frame, in_rect, lemma_from_fn_pixel};
use vstd::utf8::{encode_utf8, is_ascii_chars, is_ascii_chars_encode_utf8};

verus! {

/// `c` with an ASCII lower-case letter turned upper-case; every other
/// character is left as it is.
pub open spec fn ascii_upper(c: char) -> char {
    if 'a' <= c <= 'z' {
        ((c as u32) - 32) as char
    } else {
        c
    }
}

/// The five rows, top first, of the glyph of an upper-case character; in each
/// row the bit of value 4 is the left column and the bit of value 1 the right
/// one. A character without a glyph is drawn blank.
pub open spec fn font_rows(c: char) -> Seq<u8> {
    match c {
        '0' => seq![0b111u8, 0b101u8, 0b101u8, 0b101u8, 0b111u8],
        '1' => seq![0b010u8, 0b110u8, 0b010u8, 0b010u8, 0b111u8],
        '2' => seq![0b111u8, 0b001u8, 0b111u8, 0b100u8, 0b111u8],
        '3' => seq![0b111u8, 0b001u8, 0b111u8, 0b001u8, 0b111u8],
        '4' => seq![0b101u8, 0b101u8, 0b111u8, 0b001u8, 0b001u8],
        '5' => seq![0b111u8, 0b100u8, 0b111u8, 0b001u8, 0b111u8],
        '6' => seq![0b111u8, 0b100u8, 0b111u8, 0b101u8, 0b111u8],
        '7' => seq![0b111u8, 0b001u8, 0b001u8, 0b001u8, 0b001u8],
        '8' => seq![0b111u8, 0b101u8, 0b111u8, 0b101u8, 0b111u8],
        '9' => seq![0b111u8, 0b101u8, 0b111u8, 0b001u8, 0b111u8],
        'A' => seq![0b111u8, 0b101u8, 0b111u8, 0b101u8, 0b101u8],
        'B' => seq![0b110u8, 0b101u8, 0b110u8, 0b101u8, 0b110u8],
        'C' => seq![0b111u8, 0b100u8, 0b100u8, 0b100u8, 0b111u8],
        'D' => seq![0b110u8, 0b101u8, 0b101u8, 0b101u8, 0b110u8],
        'E' => seq![0b111u8, 0b100u8, 0b111u8, 0b100u8, 0b111u8],
        'F' => seq![0b111u8, 0b100u8, 0b111u8, 0b100u8, 0b100u8],
        'G' => seq![0b111u8, 0b100u8, 0b101u8, 0b101u8, 0b111u8],
        'H' => seq![0b101u8, 0b101u8, 0b111u8, 0b101u8, 0b101u8],
        'I' => seq![0b111u8, 0b010u8, 0b010u8, 0b010u8, 0b111u8],
        'J' => seq![0b001u8, 0b001u8, 0b001u8, 0b101u8, 0b111u8],
        'K' => seq![0b101u8, 0b101u8, 0b110u8, 0b101u8, 0b101u8],
        'L' => seq![0b100u8, 0b100u8, 0b100u8, 0b100u8, 0b111u8],
        'M' => seq![0b101u8, 0b111u8, 0b101u8, 0b101u8, 0b101u8],
        'N' => seq![0b111u8, 0b101u8, 0b101u8, 0b101u8, 0b101u8],
        'O' => seq![0b111u8, 0b101u8, 0b101u8, 0b101u8, 0b111u8],
        'P' => seq![0b111u8, 0b101u8, 0b111u8, 0b100u8, 0b100u8],
        'Q' => seq![0b111u8, 0b101u8, 0b101u8, 0b111u8, 0b001u8],
        'R' => seq![0b111u8, 0b101u8, 0b111u8, 0b101u8, 0b101u8],
        'S' => seq![0b111u8, 0b100u8, 0b111u8, 0b001u8, 0b111u8],
        'T' => seq![0b111u8, 0b010u8, 0b010u8, 0b010u8, 0b010u8],
        'U' => seq![0b101u8, 0b101u8, 0b101u8, 0b101u8, 0b111u8],
        'V' => seq![0b101u8, 0b101u8, 0b101u8, 0b101u8, 0b010u8],
        'W' => seq![0b101u8, 0b101u8, 0b101u8, 0b111u8, 0b101u8],
        'X' => seq![0b101u8, 0b101u8, 0b010u8, 0b101u8, 0b101u8],
        'Y' => seq![0b101u8, 0b101u8, 0b010u8, 0b010u8, 0b010u8],
        'Z' => seq![0b111u8, 0b001u8, 0b010u8, 0b100u8, 0b111u8],
        _ => seq![0u8, 0u8, 0u8, 0u8, 0u8],
    }
}

/// The rows of the glyph that draws `c`: letters are drawn upper-case.
pub open spec fn glyph_rows(c: char) -> Seq<u8> {
    font_rows(ascii_upper(c))
}

/// Whether the cell at `row` (0 at the top, up to 4) and `col` (0 at the left,
/// up to 2) of the glyph of `c` is lit.
pub open spec fn glyph_bit(c: char, row: int, col: int) -> bool {
    (glyph_rows(c)[row] >> ((2 - col) as usize)) & 1u8 == 1u8
}


/// Whether the glyph of `c`, drawn with its top-left corner at `(x, y)` and
/// each cell a `scale` by `scale` square, covers the pixel `(px, py)` with one
/// of its first `n` cells in reading order (row by row, left to right).
pub open spec fn glyph_covers_first(
    c: char,
    x: int,
    y: int,
    scale: int,
    n: int,
    px: int,
    py: int,
) -> bool {
    exists|row: int, col: int|
        #![trigger glyph_bit(c, row, col)]
        0 <= row < 5 && 0 <= col < 3 && row * 3 + col < n && glyph_bit(c, row, col) && in_rect(
            px,
            py,
            x + col * scale,
            y + row * scale,
            scale,
            scale,
        )
}

/// Whether the glyph of `c`, drawn at `(x, y)` with cells of side `scale`,
/// covers the pixel `(px, py)`.
pub open spec fn glyph_covers(c: char, x: int, y: int, scale: int, px: int, py: int) -> bool {
    glyph_covers_first(c, x, y, scale, 15, px, py)
}

/// Drawing the glyph of `c` at `(x, y)` with cells of side `scale` computes
/// no coordinate beyond `usize::MAX`.
pub open spec fn glyph_fits(c: char, x: int, y: int, scale: int) -> bool {
    forall|row: int, col: int|
        #![trigger glyph_bit(c, row, col)]
        0 <= row < 5 && 0 <= col < 3 && glyph_bit(c, row, col) ==> x + (col + 1) * scale
            <= usize::MAX + 1 && y + (row + 1) * scale <= usize::MAX + 1
}

/// Whether the text `s`, drawn from `(x, y)` with one glyph every `4 * scale`
/// pixels, covers the pixel `(px, py)` with one of its first `n` characters.
pub open spec fn text_covers_first(
    s: Seq<char>,
    x: int,
    y: int,
    scale: int,
    n: int,
    px: int,
    py: int,
) -> bool {
    exists|i: int|
        #![trigger s[i]]
        0 <= i < n && i < s.len() && glyph_covers(s[i], x + 4 * scale * i, y, scale, px, py)
}

/// Whether the text `s` drawn from `(x, y)` covers the pixel `(px, py)`.
pub open spec fn text_covers(s: Seq<char>, x: int, y: int, scale: int, px: int, py: int) -> bool {
    text_covers_first(s, x, y, scale, s.len() as int, px, py)
}

/// Drawing the text `s` from `(x, y)` computes no coordinate beyond `usize::MAX`.
pub open spec fn text_fits(s: Seq<char>, x: int, y: int, scale: int) -> bool {
    &&& (s.len() == 0 || x + s.len() * 4 * scale <= usize::MAX)
    &&& forall|i: int|
        #![trigger s[i]]
        0 <= i < s.len() ==> glyph_fits(s[i], x + 4 * scale * i, y, scale)
}

/// The width of a text of `n` bytes: four cells per byte, less the gap after
/// the last glyph.
pub open spec fn text_width(n: int, scale: int) -> int {
    if n == 0 {
        0
    } else {
        n * 4 * scale - scale
    }
}


/// Where a text `text_w` pixels wide starts so as to stand in the middle of a
/// frame `frame_w` pixels wide; at the left edge when it does not fit.
pub open spec fn centered_x(frame_w: int, text_w: int) -> int {
    if frame_w > text_w {
        (frame_w - text_w) / 2
    } else {
        0
    }
}

/// Law: a text narrower than the frame is centred: it lies inside the frame,
/// and its margins on the left and on the right differ by at most one pixel.
pub proof fn law_centered_margins(frame_w: int, text_w: int)
    requires
        0 <= text_w < frame_w,
    ensures
        0 <= centered_x(frame_w, text_w),
        centered_x(frame_w, text_w) + text_w <= frame_w,
        0 <= (frame_w - (centered_x(frame_w, text_w) + text_w)) - centered_x(frame_w, text_w) <= 1,
{
}

/// UTF-8 takes at least one byte per character, and none for no character.
pub proof fn lemma_utf8_len(chars: Seq<char>)
    ensures
        encode_utf8(chars).len() >= chars.len(),
        chars.len() == 0 <==> encode_utf8(chars).len() == 0,
    decreases chars.len(),
{
    if chars.len() > 0 {
        lemma_utf8_len(chars.drop_first());
    }
}

/// UTF-8 takes at most four bytes per character.
pub proof fn lemma_utf8_len_at_most_four(chars: Seq<char>)
    ensures
        encode_utf8(chars).len() <= 4 * chars.len(),
    decreases chars.len(),
{
    if chars.len() > 0 {
        lemma_utf8_len_at_most_four(chars.drop_first());
    }
}

impl Frame {
    /// This frame with the glyph of `c` drawn at `(x, y)` in `color`.
    pub open spec fn with_char(self, c: char, x: int, y: int, color: u32, scale: int) -> Frame {
        Frame::from_fn(
            self.width,
            self.height,
            |px: int, py: int|
                if glyph_covers(c, x, y, scale, px, py) {
                    color
                } else {
                    self.pixel(px, py)
                },
        )
    }

    /// This frame with the text `s` drawn from `(x, y)` in `color`.
    pub open spec fn with_text(self, s: Seq<char>, x: int, y: int, color: u32, scale: int) -> Frame {
        Frame::from_fn(
            self.width,
            self.height,
            |px: int, py: int|
                if text_covers(s, x, y, scale, px, py) {
                    color
                } else {
                    self.pixel(px, py)
                },
        )
    }
}

/// Taking one more cell of a glyph adds exactly the pixels of that cell.
pub proof fn lemma_glyph_covers_step(
    c: char,
    x: int,
    y: int,
    scale: int,
    row: int,
    col: int,
    px: int,
    py: int,
)
    requires
        0 <= row < 5,
        0 <= col < 3,
    ensures
        glyph_covers_first(c, x, y, scale, row * 3 + col + 1, px, py) == (glyph_covers_first(
            c,
            x,
            y,
            scale,
            row * 3 + col,
            px,
            py,
        ) || (glyph_bit(c, row, col) && in_rect(
            px,
            py,
            x + col * scale,
            y + row * scale,
            scale,
            scale,
        ))),
{
    let n = row * 3 + col;
    if glyph_covers_first(c, x, y, scale, n + 1, px, py) {
        let (r, cc) = choose|r: int, cc: int|
            #![trigger glyph_bit(c, r, cc)]
            0 <= r < 5 && 0 <= cc < 3 && r * 3 + cc < n + 1 && glyph_bit(c, r, cc) && in_rect(
                px,
                py,
                x + cc * scale,
                y + r * scale,
                scale,
                scale,
            );
        if r * 3 + cc == n {
            assert(r == row && cc == col);
        }
    }
    if glyph_bit(c, row, col) && in_rect(px, py, x + col * scale, y + row * scale, scale, scale) {
        assert(glyph_covers_first(c, x, y, scale, n + 1, px, py));
    }
}

/// Taking one more character of a text adds exactly the pixels of its glyph.
pub proof fn lemma_text_covers_step(s: Seq<char>, x: int, y: int, scale: int, k: int, px: int, py: int)
    requires
        0 <= k < s.len(),
    ensures
        text_covers_first(s, x, y, scale, k + 1, px, py) == (text_covers_first(
            s,
            x,
            y,
            scale,
            k,
            px,
            py,
        ) || glyph_covers(s[k], x + 4 * scale * k, y, scale, px, py)),
{
    if text_covers_first(s, x, y, scale, k + 1, px, py) {
        let i = choose|i: int|
            #![trigger s[i]]
            0 <= i < k + 1 && i < s.len() && glyph_covers(s[i], x + 4 * scale * i, y, scale, px, py);
        if i < k {
            assert(text_covers_first(s, x, y, scale, k, px, py));
        }
    }
    if glyph_covers(s[k], x + 4 * scale * k, y, scale, px, py) {
        assert(text_covers_first(s, x, y, scale, k + 1, px, py));
    }
}

/// Law: what `draw_string` draws lies within the width that
/// `get_string_width` gives, and within five cells of height.
pub proof fn law_text_within_width(s: Seq<char>, x: int, y: int, scale: int, px: int, py: int)
    requires
        scale >= 0,
        text_covers(s, x, y, scale, px, py),
    ensures
        x <= px < x + text_width(encode_utf8(s).len() as int, scale),
        y <= py < y + 5 * scale,
{
    let n = s.len() as int;
    let bytes = encode_utf8(s).len() as int;
    lemma_utf8_len(s);
    let i = choose|i: int|
        #![trigger s[i]]
        0 <= i < n && i < s.len() && glyph_covers(s[i], x + 4 * scale * i, y, scale, px, py);
    let gx = x + 4 * scale * i;
    let (row, col) = choose|row: int, col: int|
        #![trigger glyph_bit(s[i], row, col)]
        0 <= row < 5 && 0 <= col < 3 && row * 3 + col < 15 && glyph_bit(s[i], row, col) && in_rect(
            px,
            py,
            gx + col * scale,
            y + row * scale,
            scale,
            scale,
        );
    assert(0 <= 4 * scale * i + col * scale && 4 * scale * i + col * scale + scale <= bytes * 4
        * scale - scale) by (nonlinear_arith)
        requires
            0 <= i < n,
            n <= bytes,
            0 <= col < 3,
            scale >= 0,
    ;
    assert(0 <= row * scale && row * scale + scale <= 5 * scale) by (nonlinear_arith)
        requires
            0 <= row < 5,
            scale >= 0,
    ;
}

/// Law: the font, row by row, top first (the bit of value 4 is the left
/// column): digits and upper-case letters have these glyphs, a lower-case
/// letter has the glyph of its upper-case letter, and every other character
/// is blank.
pub proof fn law_font_table()
    ensures
        glyph_rows('0') == seq![0b111u8, 0b101u8, 0b101u8, 0b101u8, 0b111u8],
        glyph_rows('1') == seq![0b010u8, 0b110u8, 0b010u8, 0b010u8, 0b111u8],
        glyph_rows('2') == seq![0b111u8, 0b001u8, 0b111u8, 0b100u8, 0b111u8],
        glyph_rows('3') == seq![0b111u8, 0b001u8, 0b111u8, 0b001u8, 0b111u8],
        glyph_rows('4') == seq![0b101u8, 0b101u8, 0b111u8, 0b001u8, 0b001u8],
        glyph_rows('5') == seq![0b111u8, 0b100u8, 0b111u8, 0b001u8, 0b111u8],
        glyph_rows('6') == seq![0b111u8, 0b100u8, 0b111u8, 0b101u8, 0b111u8],
        glyph_rows('7') == seq![0b111u8, 0b001u8, 0b001u8, 0b001u8, 0b001u8],
        glyph_rows('8') == seq![0b111u8, 0b101u8, 0b111u8, 0b101u8, 0b111u8],
        glyph_rows('9') == seq![0b111u8, 0b101u8, 0b111u8, 0b001u8, 0b111u8],
        glyph_rows('A') == seq![0b111u8, 0b101u8, 0b111u8, 0b101u8, 0b101u8],
        glyph_rows('B') == seq![0b110u8, 0b101u8, 0b110u8, 0b101u8, 0b110u8],
        glyph_rows('C') == seq![0b111u8, 0b100u8, 0b100u8, 0b100u8, 0b111u8],
        glyph_rows('D') == seq![0b110u8, 0b101u8, 0b101u8, 0b101u8, 0b110u8],
        glyph_rows('E') == seq![0b111u8, 0b100u8, 0b111u8, 0b100u8, 0b111u8],
        glyph_rows('F') == seq![0b111u8, 0b100u8, 0b111u8, 0b100u8, 0b100u8],
        glyph_rows('G') == seq![0b111u8, 0b100u8, 0b101u8, 0b101u8, 0b111u8],
        glyph_rows('H') == seq![0b101u8, 0b101u8, 0b111u8, 0b101u8, 0b101u8],
        glyph_rows('I') == seq![0b111u8, 0b010u8, 0b010u8, 0b010u8, 0b111u8],
        glyph_rows('J') == seq![0b001u8, 0b001u8, 0b001u8, 0b101u8, 0b111u8],
        glyph_rows('K') == seq![0b101u8, 0b101u8, 0b110u8, 0b101u8, 0b101u8],
        glyph_rows('L') == seq![0b100u8, 0b100u8, 0b100u8, 0b100u8, 0b111u8],
        glyph_rows('M') == seq![0b101u8, 0b111u8, 0b101u8, 0b101u8, 0b101u8],
        glyph_rows('N') == seq![0b111u8, 0b101u8, 0b101u8, 0b101u8, 0b101u8],
        glyph_rows('O') == seq![0b111u8, 0b101u8, 0b101u8, 0b101u8, 0b111u8],
        glyph_rows('P') == seq![0b111u8, 0b101u8, 0b111u8, 0b100u8, 0b100u8],
        glyph_rows('Q') == seq![0b111u8, 0b101u8, 0b101u8, 0b111u8, 0b001u8],
        glyph_rows('R') == seq![0b111u8, 0b101u8, 0b111u8, 0b101u8, 0b101u8],
        glyph_rows('S') == seq![0b111u8, 0b100u8, 0b111u8, 0b001u8, 0b111u8],
        glyph_rows('T') == seq![0b111u8, 0b010u8, 0b010u8, 0b010u8, 0b010u8],
        glyph_rows('U') == seq![0b101u8, 0b101u8, 0b101u8, 0b101u8, 0b111u8],
        glyph_rows('V') == seq![0b101u8, 0b101u8, 0b101u8, 0b101u8, 0b010u8],
        glyph_rows('W') == seq![0b101u8, 0b101u8, 0b101u8, 0b111u8, 0b101u8],
        glyph_rows('X') == seq![0b101u8, 0b101u8, 0b010u8, 0b101u8, 0b101u8],
        glyph_rows('Y') == seq![0b101u8, 0b101u8, 0b010u8, 0b010u8, 0b010u8],
        glyph_rows('Z') == seq![0b111u8, 0b001u8, 0b010u8, 0b100u8, 0b111u8],
        glyph_rows('a') == glyph_rows('A'),
        glyph_rows('b') == glyph_rows('B'),
        glyph_rows('c') == glyph_rows('C'),
        glyph_rows('d') == glyph_rows('D'),
        glyph_rows('e') == glyph_rows('E'),
        glyph_rows('f') == glyph_rows('F'),
        glyph_rows('g') == glyph_rows('G'),
        glyph_rows('h') == glyph_rows('H'),
        glyph_rows('i') == glyph_rows('I'),
        glyph_rows('j') == glyph_rows('J'),
        glyph_rows('k') == glyph_rows('K'),
        glyph_rows('l') == glyph_rows('L'),
        glyph_rows('m') == glyph_rows('M'),
        glyph_rows('n') == glyph_rows('N'),
        glyph_rows('o') == glyph_rows('O'),
        glyph_rows('p') == glyph_rows('P'),
        glyph_rows('q') == glyph_rows('Q'),
        glyph_rows('r') == glyph_rows('R'),
        glyph_rows('s') == glyph_rows('S'),
        glyph_rows('t') == glyph_rows('T'),
        glyph_rows('u') == glyph_rows('U'),
        glyph_rows('v') == glyph_rows('V'),
        glyph_rows('w') == glyph_rows('W'),
        glyph_rows('x') == glyph_rows('X'),
        glyph_rows('y') == glyph_rows('Y'),
        glyph_rows('z') == glyph_rows('Z'),
        forall|c: char|
            !('0' <= c <= '9' || 'A' <= c <= 'Z' || 'a' <= c <= 'z') ==> #[trigger] glyph_rows(c)
                == seq![0u8, 0u8, 0u8, 0u8, 0u8],
{
    assert(ascii_upper('a') == 'A');
    assert(ascii_upper('b') == 'B');
    assert(ascii_upper('c') == 'C');
    assert(ascii_upper('d') == 'D');
    assert(ascii_upper('e') == 'E');
    assert(ascii_upper('f') == 'F');
    assert(ascii_upper('g') == 'G');
    assert(ascii_upper('h') == 'H');
    assert(ascii_upper('i') == 'I');
    assert(ascii_upper('j') == 'J');
    assert(ascii_upper('k') == 'K');
    assert(ascii_upper('l') == 'L');
    assert(ascii_upper('m') == 'M');
    assert(ascii_upper('n') == 'N');
    assert(ascii_upper('o') == 'O');
    assert(ascii_upper('p') == 'P');
    assert(ascii_upper('q') == 'Q');
    assert(ascii_upper('r') == 'R');
    assert(ascii_upper('s') == 'S');
    assert(ascii_upper('t') == 'T');
    assert(ascii_upper('u') == 'U');
    assert(ascii_upper('v') == 'V');
    assert(ascii_upper('w') == 'W');
    assert(ascii_upper('x') == 'X');
    assert(ascii_upper('y') == 'Y');
    assert(ascii_upper('z') == 'Z');
}

/// Law: drawing a glyph lights, in full, every cell of the glyph whose bit
/// is set: each pixel of the frame in that cell takes the colour.
pub proof fn law_char_lights_its_cells(
    f: Frame,
    c: char,
    x: int,
    y: int,
    color: u32,
    scale: int,
    row: int,
    col: int,
    px: int,
    py: int,
)
    requires
        0 <= row < 5,
        0 <= col < 3,
        glyph_bit(c, row, col),
        f.in_bounds(px, py),
        in_rect(px, py, x + col * scale, y + row * scale, scale, scale),
    ensures
        f.with_char(c, x, y, color, scale).pixel(px, py) == color,
{
    assert(glyph_covers(c, x, y, scale, px, py));
    lemma_from_fn_pixel(
        f.width,
        f.height,
        |qx: int, qy: int|
            if glyph_covers(c, x, y, scale, qx, qy) {
                color
            } else {
                f.pixel(qx, qy)
            },
        px,
        py,
    );
}

/// Law: drawing a glyph leaves every pixel outside its lit cells as it was.
pub proof fn law_char_leaves_the_rest(
    f: Frame,
    c: char,
    x: int,
    y: int,
    color: u32,
    scale: int,
    px: int,
    py: int,
)
    requires
        f.in_bounds(px, py),
        forall|row: int, col: int|
            #![trigger glyph_bit(c, row, col)]
            0 <= row < 5 && 0 <= col < 3 && glyph_bit(c, row, col) ==> !in_rect(
                px,
                py,
                x + col * scale,
                y + row * scale,
                scale,
                scale,
            ),
    ensures
        f.with_char(c, x, y, color, scale).pixel(px, py) == f.pixel(px, py),
{
    lemma_from_fn_pixel(
        f.width,
        f.height,
        |qx: int, qy: int|
            if glyph_covers(c, x, y, scale, qx, qy) {
                color
            } else {
                f.pixel(qx, qy)
            },
        px,
        py,
    );
}

/// Law: drawing a text draws every one of its characters: for each index
/// `i` of the text, each lit cell of the glyph of its `i`-th character,
/// placed `4 * scale * i` pixels right of the start, takes the colour.
pub proof fn law_text_lights_every_char(
    f: Frame,
    s: Seq<char>,
    x: int,
    y: int,
    color: u32,
    scale: int,
    i: int,
    row: int,
    col: int,
    px: int,
    py: int,
)
    requires
        0 <= i < s.len(),
        0 <= row < 5,
        0 <= col < 3,
        glyph_bit(s[i], row, col),
        f.in_bounds(px, py),
        in_rect(px, py, x + 4 * scale * i + col * scale, y + row * scale, scale, scale),
    ensures
        f.with_text(s, x, y, color, scale).pixel(px, py) == color,
{
    assert(glyph_covers(s[i], x + 4 * scale * i, y, scale, px, py));
    assert(text_covers(s, x, y, scale, px, py));
    lemma_from_fn_pixel(
        f.width,
        f.height,
        |qx: int, qy: int|
            if text_covers(s, x, y, scale, qx, qy) {
                color
            } else {
                f.pixel(qx, qy)
            },
        px,
        py,
    );
}

/// Law: drawing a text leaves every pixel outside the lit cells of its
/// characters' glyphs as it was.
pub proof fn law_text_leaves_the_rest(
    f: Frame,
    s: Seq<char>,
    x: int,
    y: int,
    color: u32,
    scale: int,
    px: int,
    py: int,
)
    requires
        f.in_bounds(px, py),
        forall|i: int, row: int, col: int|
            #![trigger s[i], glyph_bit(s[i], row, col)]
            0 <= i < s.len() && 0 <= row < 5 && 0 <= col < 3 && glyph_bit(s[i], row, col)
                ==> !in_rect(
                px,
                py,
                x + 4 * scale * i + col * scale,
                y + row * scale,
                scale,
                scale,
            ),
    ensures
        f.with_text(s, x, y, color, scale).pixel(px, py) == f.pixel(px, py),
{
    if text_covers(s, x, y, scale, px, py) {
        let i = choose|i: int|
            #![trigger s[i]]
            0 <= i < s.len() && i < s.len() && glyph_covers(
                s[i],
                x + 4 * scale * i,
                y,
                scale,
                px,
                py,
            );
        let (row, col) = choose|row: int, col: int|
            #![trigger glyph_bit(s[i], row, col)]
            0 <= row < 5 && 0 <= col < 3 && row * 3 + col < 15 && glyph_bit(s[i], row, col)
                && in_rect(
                px,
                py,
                x + 4 * scale * i + col * scale,
                y + row * scale,
                scale,
                scale,
            );
        assert(false);
    }
    lemma_from_fn_pixel(
        f.width,
        f.height,
        |qx: int, qy: int|
            if text_covers(s, x, y, scale, qx, qy) {
                color
            } else {
                f.pixel(qx, qy)
            },
        px,
        py,
    );
}

/// Law: the width of an ASCII text is tight: when the glyph of its last
/// character lights its right column in some row, the last pixel column
/// within the width, `x + width - 1`, is lit in that row.
pub proof fn law_text_width_is_tight(s: Seq<char>, x: int, y: int, scale: int, row: int)
    requires
        s.len() > 0,
        is_ascii_chars(s),
        scale > 0,
        0 <= row < 5,
        glyph_bit(s[s.len() - 1], row, 2),
    ensures
        text_covers(
            s,
            x,
            y,
            scale,
            x + text_width(encode_utf8(s).len() as int, scale) - 1,
            y + row * scale,
        ),
{
    is_ascii_chars_encode_utf8(s);
    let n = s.len() as int;
    let i = n - 1;
    let px = x + text_width(n, scale) - 1;
    let py = y + row * scale;
    assert(px == x + 4 * scale * i + 2 * scale + (scale - 1)) by (nonlinear_arith)
        requires
            px == x + (n * 4 * scale - scale) - 1,
            i == n - 1,
    ;
    assert(in_rect(px, py, x + 4 * scale * i + 2 * scale, y + row * scale, scale, scale));
    assert(glyph_covers(s[i], x + 4 * scale * i, y, scale, px, py));
}

/// `c` with an ASCII lower-case letter turned upper-case.
pub fn ascii_uppercase(c: char) -> (r: char)
    ensures
        r == ascii_upper(c),
{
    if 'a' <= c && c <= 'z' {
        ((c as u8) - 32) as char
    } else {
        c
    }
}

/// The five rows of the glyph that draws `c`.
pub fn glyph(c: char) -> (rows: [u8; 5])
    ensures
        rows@ == glyph_rows(c),
{
    let rows: [u8; 5] = match ascii_uppercase(c) {
        '0' => [0b111, 0b101, 0b101, 0b101, 0b111],
        '1' => [0b010, 0b110, 0b010, 0b010, 0b111],
        '2' => [0b111, 0b001, 0b111, 0b100, 0b111],
        '3' => [0b111, 0b001, 0b111, 0b001, 0b111],
        '4' => [0b101, 0b101, 0b111, 0b001, 0b001],
        '5' => [0b111, 0b100, 0b111, 0b001, 0b111],
        '6' => [0b111, 0b100, 0b111, 0b101, 0b111],
        '7' => [0b111, 0b001, 0b001, 0b001, 0b001],
        '8' => [0b111, 0b101, 0b111, 0b101, 0b111],
        '9' => [0b111, 0b101, 0b111, 0b001, 0b111],
        'A' => [0b111, 0b101, 0b111, 0b101, 0b101],
        'B' => [0b110, 0b101, 0b110, 0b101, 0b110],
        'C' => [0b111, 0b100, 0b100, 0b100, 0b111],
        'D' => [0b110, 0b101, 0b101, 0b101, 0b110],
        'E' => [0b111, 0b100, 0b111, 0b100, 0b111],
        'F' => [0b111, 0b100, 0b111, 0b100, 0b100],
        'G' => [0b111, 0b100, 0b101, 0b101, 0b111],
        'H' => [0b101, 0b101, 0b111, 0b101, 0b101],
        'I' => [0b111, 0b010, 0b010, 0b010, 0b111],
        'J' => [0b001, 0b001, 0b001, 0b101, 0b111],
        'K' => [0b101, 0b101, 0b110, 0b101, 0b101],
        'L' => [0b100, 0b100, 0b100, 0b100, 0b111],
        'M' => [0b101, 0b111, 0b101, 0b101, 0b101],
        'N' => [0b111, 0b101, 0b101, 0b101, 0b101],
        'O' => [0b111, 0b101, 0b101, 0b101, 0b111],
        'P' => [0b111, 0b101, 0b111, 0b100, 0b100],
        'Q' => [0b111, 0b101, 0b101, 0b111, 0b001],
        'R' => [0b111, 0b101, 0b111, 0b101, 0b101],
        'S' => [0b111, 0b100, 0b111, 0b001, 0b111],
        'T' => [0b111, 0b010, 0b010, 0b010, 0b010],
        'U' => [0b101, 0b101, 0b101, 0b101, 0b111],
        'V' => [0b101, 0b101, 0b101, 0b101, 0b010],
        'W' => [0b101, 0b101, 0b101, 0b111, 0b101],
        'X' => [0b101, 0b101, 0b010, 0b101, 0b101],
        'Y' => [0b101, 0b101, 0b010, 0b010, 0b010],
        'Z' => [0b111, 0b001, 0b010, 0b100, 0b111],
        _ => [0b000, 0b000, 0b000, 0b000, 0b000],
    };
    assert(rows@ =~= glyph_rows(c));
    rows
}

} // verus!
