//! The parts of every screen drawn the same way: the background grid, the
//! title and the list of menu items.
use vstd::prelude::*;
use vstd::string::StringSliceAdditionalSpecFns;
use crate::engine::{Engine, WIDTH, HEIGHT};
use vstd::string::StringExecFns;
use vstd::utf8::encode_utf8;
use crate::font::{centered_x, glyph_bit, law_text_within_width, text_covers, glyph_fits, lemma_utf8_len, lemma_utf8_len_at_most_four, text_fits, text_width};
use crate::menu::{GameState, Ui, menu_items, menu_texts, screen_title, title_text};
use crate::score::{decimal, labeled_score, lemma_decimal_len};
use crate::frame::{Frame, lemma_with_pixel_pixel, lemma_eq_from_fn, lemma_from_fn_pixel};

verus! {

/// The colour of the background grid.
pub const COLOR_GRID: u32 = 0x1A1A1A;

/// The distance between two lines of the background grid.
pub const GRID_STEP: usize = 40;

/// Whether `(px, py)` lies on the background grid, which covers
/// `WIDTH` x `HEIGHT` pixels with a line every `GRID_STEP` pixels.
pub open spec fn on_grid(px: int, py: int) -> bool {
    &&& 0 <= px < WIDTH
    &&& 0 <= py < HEIGHT
    &&& (px % GRID_STEP as int == 0 || py % GRID_STEP as int == 0)
}

impl Frame {
    /// This frame with the background grid drawn on it.
    pub open spec fn with_grid(self) -> Frame {
        Frame::from_fn(
            self.width,
            self.height,
            |px: int, py: int|
                if on_grid(px, py) {
                    COLOR_GRID
                } else {
                    self.pixel(px, py)
                },
        )
    }
}

/// Draws the background grid: every `GRID_STEP`-th column and row of the
/// `WIDTH` x `HEIGHT` area, in `COLOR_GRID`.
pub fn draw_background_grid(engine: &mut Engine)
    requires
        old(engine).wf(),
    ensures
        final(engine).wf(),
        final(engine)@ == old(engine)@.with_grid(),
{
    let ghost start = engine@;
    let mut x: usize = 0;
    while x < WIDTH
        invariant
            engine.wf(),
            engine@.same_size(start),
            start.wf(),
            x <= WIDTH,
            x % GRID_STEP == 0,
            forall|px: int, py: int|
                #![trigger engine@.pixel(px, py)]
                engine@.in_bounds(px, py) ==> engine@.pixel(px, py) == if 0 <= px < x && 0 <= py
                    < HEIGHT && px % GRID_STEP as int == 0 {
                    COLOR_GRID
                } else {
                    start.pixel(px, py)
                },
        decreases WIDTH - x,
    {
        let mut y: usize = 0;
        while y < HEIGHT
            invariant
                engine.wf(),
                engine@.same_size(start),
                start.wf(),
                x < WIDTH,
                x % GRID_STEP == 0,
                y <= HEIGHT,
                forall|px: int, py: int|
                    #![trigger engine@.pixel(px, py)]
                    engine@.in_bounds(px, py) ==> engine@.pixel(px, py) == if (0 <= px < x && 0
                        <= py < HEIGHT && px % GRID_STEP as int == 0) || (px == x && 0 <= py < y) {
                        COLOR_GRID
                    } else {
                        start.pixel(px, py)
                    },
            decreases HEIGHT - y,
        {
            let ghost before = engine@;
            engine.draw_pixel(x, y, COLOR_GRID);
            proof {
                assert forall|px: int, py: int| engine@.in_bounds(px, py) implies #[trigger] engine@.pixel(
                    px,
                    py,
                ) == if (0 <= px < x && 0 <= py < HEIGHT && px % GRID_STEP as int == 0) || (px == x
                    && 0 <= py < y + 1) {
                    COLOR_GRID
                } else {
                    start.pixel(px, py)
                } by {
                    lemma_with_pixel_pixel(before, x as int, y as int, COLOR_GRID, px, py);
                }
            }
            y = y + 1;
        }
        x = x + GRID_STEP;
    }
    let mut y: usize = 0;
    while y < HEIGHT
        invariant
            engine.wf(),
            engine@.same_size(start),
            start.wf(),
            y <= HEIGHT,
            y % GRID_STEP == 0,
            forall|px: int, py: int|
                #![trigger engine@.pixel(px, py)]
                engine@.in_bounds(px, py) ==> engine@.pixel(px, py) == if (0 <= px < WIDTH && 0 <= py
                    < HEIGHT && px % GRID_STEP as int == 0) || (0 <= py < y && 0 <= px < WIDTH && py
                    % GRID_STEP as int == 0) {
                    COLOR_GRID
                } else {
                    start.pixel(px, py)
                },
        decreases HEIGHT - y,
    {
        let mut x: usize = 0;
        while x < WIDTH
            invariant
                engine.wf(),
                engine@.same_size(start),
                start.wf(),
                y < HEIGHT,
                y % GRID_STEP == 0,
                x <= WIDTH,
                forall|px: int, py: int|
                    #![trigger engine@.pixel(px, py)]
                    engine@.in_bounds(px, py) ==> engine@.pixel(px, py) == if (0 <= px < WIDTH && 0
                        <= py < HEIGHT && px % GRID_STEP as int == 0) || (0 <= py < y && 0 <= px
                        < WIDTH && py % GRID_STEP as int == 0) || (py == y && 0 <= px < x) {
                        COLOR_GRID
                    } else {
                        start.pixel(px, py)
                    },
            decreases WIDTH - x,
        {
            let ghost before = engine@;
            engine.draw_pixel(x, y, COLOR_GRID);
            proof {
                assert forall|px: int, py: int| engine@.in_bounds(px, py) implies #[trigger] engine@.pixel(
                    px,
                    py,
                ) == if (0 <= px < WIDTH && 0 <= py < HEIGHT && px % GRID_STEP as int == 0) || (0
                    <= py < y && 0 <= px < WIDTH && py % GRID_STEP as int == 0) || (py == y && 0
                    <= px < x + 1) {
                    COLOR_GRID
                } else {
                    start.pixel(px, py)
                } by {
                    lemma_with_pixel_pixel(before, x as int, y as int, COLOR_GRID, px, py);
                }
            }
            x = x + 1;
        }
        y = y + GRID_STEP;
    }
    proof {
        let f = |px: int, py: int|
            if on_grid(px, py) {
                COLOR_GRID
            } else {
                start.pixel(px, py)
            };
        assert forall|px: int, py: int| engine@.in_bounds(px, py) implies #[trigger] engine@.pixel(
            px,
            py,
        ) == f(px, py) by {}
        lemma_eq_from_fn(engine@, f);
    }
}

/// The colour of a title.
pub const COLOR_TITLE: u32 = 0x00FF00;

/// The colour of a title's shadow.
pub const COLOR_TITLE_SHADOW: u32 = 0x004400;

/// The height at which a title is drawn; its shadow lies two pixels lower.
pub const TITLE_Y: usize = 60;

/// The cell size of a title's glyphs.
pub const TITLE_SCALE: usize = 5;

/// The colour of the selected menu item.
pub const COLOR_SELECTED: u32 = 0xFFFFFF;

/// The colour of the other menu items.
pub const COLOR_UNSELECTED: u32 = 0x444444;

/// The height of the first menu item.
pub const MENU_TOP: usize = 300;

/// The distance between two menu items.
pub const MENU_SPACING: usize = 50;

/// The cell size of a menu item's glyphs.
pub const MENU_SCALE: usize = 2;

/// Where the text `s`, drawn with cells of side `scale`, starts when centred
/// in a frame `width` pixels wide.
pub open spec fn centered_text_x(width: nat, s: Seq<char>, scale: int) -> int {
    centered_x(width as int, text_width(encode_utf8(s).len() as int, scale))
}

/// Drawing the text `s` centred at height `y` computes no coordinate beyond
/// `usize::MAX`.
pub open spec fn centered_text_fits(width: nat, s: Seq<char>, y: int, scale: int) -> bool {
    &&& (s.len() == 0 || (encode_utf8(s).len() * 4 <= usize::MAX && encode_utf8(s).len() * 4
        * scale <= usize::MAX))
    &&& text_fits(s, centered_text_x(width, s, scale), y, scale)
}

/// The text of a menu item: a marker for the selected one, blanks for the others.
pub open spec fn menu_line(item: Seq<char>, selected: bool) -> Seq<char> {
    if selected {
        seq!['>', ' '] + item
    } else {
        seq![' ', ' '] + item
    }
}

/// The colour of a menu item.
pub open spec fn menu_color(selected: bool) -> u32 {
    if selected {
        COLOR_SELECTED
    } else {
        COLOR_UNSELECTED
    }
}

/// The height of the menu item at position `i`.
pub open spec fn menu_y(i: int) -> int {
    MENU_TOP + MENU_SPACING * i
}

/// Drawing every item of a menu computes no coordinate beyond `usize::MAX`.
pub open spec fn menu_fits(width: nat, items: Seq<Seq<char>>, selected: int) -> bool {
    forall|i: int|
        #![trigger items[i]]
        0 <= i < items.len() ==> menu_y(i) <= usize::MAX && centered_text_fits(
            width,
            menu_line(items[i], i == selected),
            menu_y(i),
            MENU_SCALE as int,
        )
}

impl Frame {
    /// This frame with the text `s` drawn centred at height `y`.
    pub open spec fn with_centered_text(self, s: Seq<char>, y: int, color: u32, scale: int) -> Frame {
        self.with_text(s, centered_text_x(self.width, s, scale), y, color, scale)
    }

    /// This frame with a title drawn: first its shadow, then the title two
    /// pixels higher.
    pub open spec fn with_header(self, title: Seq<char>) -> Frame {
        self.with_centered_text(
            title,
            TITLE_Y + 2,
            COLOR_TITLE_SHADOW,
            TITLE_SCALE as int,
        ).with_centered_text(title, TITLE_Y as int, COLOR_TITLE, TITLE_SCALE as int)
    }

    /// This frame with the first `n` items of a menu drawn, one under the other.
    pub open spec fn with_menu(self, items: Seq<Seq<char>>, selected: int, n: int) -> Frame
        decreases n,
    {
        if n <= 0 {
            self
        } else {
            self.with_menu(items, selected, n - 1).with_centered_text(
                menu_line(items[n - 1], n - 1 == selected),
                menu_y(n - 1),
                menu_color(n - 1 == selected),
                MENU_SCALE as int,
            )
        }
    }
}

/// Draws a title centred at the top of the frame, over its shadow.
pub fn draw_header(engine: &mut Engine, title: &str)
    requires
        old(engine).wf(),
        centered_text_fits(old(engine)@.width, title@, TITLE_Y + 2, TITLE_SCALE as int),
        centered_text_fits(old(engine)@.width, title@, TITLE_Y as int, TITLE_SCALE as int),
    ensures
        final(engine).wf(),
        final(engine)@ == old(engine)@.with_header(title@),
{
    engine.draw_string_centered(TITLE_Y + 2, title, COLOR_TITLE_SHADOW, TITLE_SCALE);
    engine.draw_string_centered(TITLE_Y, title, COLOR_TITLE, TITLE_SCALE);
}

/// Draws the menu `items` centred one under the other, the `selected` one
/// marked and highlighted.
pub fn draw_menu(engine: &mut Engine, items: &[&str], selected: usize)
    requires
        old(engine).wf(),
        menu_fits(old(engine)@.width, items@.map_values(|s: &str| s@), selected as int),
    ensures
        final(engine).wf(),
        final(engine)@ == old(engine)@.with_menu(
            items@.map_values(|s: &str| s@),
            selected as int,
            items@.len() as int,
        ),
{
    let ghost start = engine@;
    let ghost texts = items@.map_values(|s: &str| s@);
    for i in 0..items.len()
        invariant
            engine.wf(),
            engine@.same_size(start),
            texts == items@.map_values(|s: &str| s@),
            menu_fits(start.width, texts, selected as int),
            engine@ == start.with_menu(texts, selected as int, i as int),
    {
        let item: &str = items[i];
        let color = if i == selected {
            COLOR_SELECTED
        } else {
            COLOR_UNSELECTED
        };
        let mut text = String::new();
        if i == selected {
            text.append("> ");
        } else {
            text.append("  ");
        }
        text.append(item);
        proof {
            reveal_strlit("> ");
            reveal_strlit("  ");
            assert(texts[i as int] == item@);
            assert(text@ =~= menu_line(texts[i as int], i == selected));
        }
        engine.draw_string_centered(MENU_TOP + i * MENU_SPACING, text.as_str(), color, MENU_SCALE);
    }
}

/// A text of at most 64 characters, with cells of side at most 5, drawn
/// centred at a height of at most 1000 in a frame as wide as a `usize` can
/// count, computes no coordinate beyond `usize::MAX`.
pub proof fn lemma_short_text_fits(width: nat, s: Seq<char>, y: int, scale: int)
    requires
        width <= usize::MAX,
        s.len() <= 64,
        0 <= scale <= 5,
        0 <= y <= 1000,
    ensures
        centered_text_fits(width, s, y, scale),
{
    let n = s.len() as int;
    let b = encode_utf8(s).len() as int;
    lemma_utf8_len(s);
    lemma_utf8_len_at_most_four(s);
    let tw = text_width(b, scale);
    let x = centered_text_x(width, s, scale);
    assert(b * 4 <= 1024 && b * 4 * scale <= 5120 && 0 <= n * 4 * scale <= b * 4 * scale)
        by (nonlinear_arith)
        requires
            0 <= n <= b <= 4 * n,
            n <= 64,
            0 <= scale <= 5,
    ;
    assert(0 <= x);
    assert(n == 0 || x + n * 4 * scale <= usize::MAX) by {
        if n > 0 {
            assert(tw == b * 4 * scale - scale);
        }
    }
    assert forall|i: int| #![trigger s[i]] 0 <= i < n implies glyph_fits(
        s[i],
        x + 4 * scale * i,
        y,
        scale,
    ) by {
        assert forall|row: int, col: int|
            #![trigger glyph_bit(s[i], row, col)]
            0 <= row < 5 && 0 <= col < 3 && glyph_bit(s[i], row, col) implies x + 4 * scale * i + (
            col + 1) * scale <= usize::MAX + 1 && y + (row + 1) * scale <= usize::MAX + 1 by {
            assert(4 * scale * i + (col + 1) * scale <= n * 4 * scale && (row + 1) * scale <= 25)
                by (nonlinear_arith)
                requires
                    0 <= i < n,
                    0 <= col < 3,
                    0 <= row < 5,
                    0 <= scale <= 5,
            ;
        }
    }
}

/// The background colour of every screen.
pub const COLOR_BG: u32 = 0x0F0F0F;

/// The colour of the final score on the game-over screen.
pub const COLOR_FINAL_SCORE: u32 = 0xFFFFFF;

/// The colour of the best score on the game-over screen.
pub const COLOR_BEST_SCORE: u32 = 0x00FF00;

impl Frame {
    /// This frame with the screen of `ui.state` drawn: the pause menu over
    /// the last frame of play; every other screen with a menu on a cleared
    /// background with its grid, under its title; the game-over screen with
    /// the final and the best score between title and menu.
    pub open spec fn with_menu_screen(self, ui: Ui, score: u32, high_score: u32) -> Frame {
        let items = menu_texts(ui.state, ui.music_enabled);
        let title = title_text(ui.state)->0;
        let sel = ui.menu_selected as int;
        let n = items.len() as int;
        match ui.state {
            GameState::Paused => self.with_header(title).with_menu(items, sel, n),
            GameState::GameOver => self.filled(COLOR_BG).with_grid().with_header(
                title,
            ).with_centered_text(
                "FINAL SCORE: "@ + decimal(score as nat),
                180,
                COLOR_FINAL_SCORE,
                2,
            ).with_centered_text(
                "BEST SCORE: "@ + decimal(high_score as nat),
                215,
                COLOR_BEST_SCORE,
                1,
            ).with_menu(items, sel, n),
            _ => self.filled(COLOR_BG).with_grid().with_header(title).with_menu(items, sel, n),
        }
    }
}

/// Draws the screen of a menu (every screen but play) as `ui` stands.
pub fn draw_menu_screen(engine: &mut Engine, ui: &Ui, score: u32, high_score: u32)
    requires
        old(engine).wf(),
        ui.state != GameState::Playing,
    ensures
        final(engine).wf(),
        final(engine)@ == old(engine)@.with_menu_screen(*ui, score, high_score),
{
    let ghost width = engine@.width;
    proof {
        reveal_strlit("RUST SNAKE");
        reveal_strlit("SETTINGS");
        reveal_strlit("PAUSED");
        reveal_strlit("GAME OVER");
        reveal_strlit("START GAME");
        reveal_strlit("QUIT");
        reveal_strlit("MUSIC: ON");
        reveal_strlit("MUSIC: OFF");
        reveal_strlit("BACK");
        reveal_strlit("RESUME");
        reveal_strlit("MAIN MENU");
        reveal_strlit("RESTART");
        reveal_strlit("FINAL SCORE: ");
        reveal_strlit("BEST SCORE: ");
        lemma_decimal_len(score as nat);
        lemma_decimal_len(high_score as nat);
    }
    let title = match screen_title(ui.state) {
        Some(t) => t,
        None => "",
    };
    proof {
        lemma_short_text_fits(width, title@, TITLE_Y + 2, TITLE_SCALE as int);
        lemma_short_text_fits(width, title@, TITLE_Y as int, TITLE_SCALE as int);
    }
    if ui.state != GameState::Paused {
        engine.clear(COLOR_BG);
        draw_background_grid(engine);
    }
    draw_header(engine, title);
    if ui.state == GameState::GameOver {
        let final_score = labeled_score("FINAL SCORE: ", score);
        let best_score = labeled_score("BEST SCORE: ", high_score);
        proof {
            lemma_short_text_fits(width, final_score@, 180, 2);
            lemma_short_text_fits(width, best_score@, 215, 1);
        }
        engine.draw_string_centered(180, final_score.as_str(), COLOR_FINAL_SCORE, 2);
        engine.draw_string_centered(215, best_score.as_str(), COLOR_BEST_SCORE, 1);
    }
    let items = menu_items(ui.state, ui.music_enabled);
    let ghost texts = items@.map_values(|s: &str| s@);
    proof {
        assert forall|i: int| #![trigger texts[i]] 0 <= i < texts.len() implies menu_y(i)
            <= usize::MAX && centered_text_fits(
            width,
            menu_line(texts[i], i == ui.menu_selected as int),
            menu_y(i),
            MENU_SCALE as int,
        ) by {
            lemma_short_text_fits(
                width,
                menu_line(texts[i], i == ui.menu_selected as int),
                menu_y(i),
                MENU_SCALE as int,
            );
        }
    }
    draw_menu(engine, items.as_slice(), ui.menu_selected);
}

/// Drawing menu items keeps the frame's size and layout.
pub proof fn lemma_with_menu_size(f: Frame, items: Seq<Seq<char>>, selected: int, n: int)
    requires
        f.wf(),
    ensures
        f.with_menu(items, selected, n).wf(),
        f.with_menu(items, selected, n).same_size(f),
    decreases n,
{
    if n > 0 {
        lemma_with_menu_size(f, items, selected, n - 1);
        let prev = f.with_menu(items, selected, n - 1);
        let line = menu_line(items[n - 1], n - 1 == selected);
        let next = prev.with_centered_text(
            line,
            menu_y(n - 1),
            menu_color(n - 1 == selected),
            MENU_SCALE as int,
        );
        assert(next.pixels.len() == next.width * next.height);
    }
}

/// A pixel that the text of item `i` covers keeps the colour of that item
/// once the first `n` items, item `i` among them, are drawn.
proof fn lemma_menu_item_pixel(
    f: Frame,
    items: Seq<Seq<char>>,
    selected: int,
    n: int,
    i: int,
    px: int,
    py: int,
)
    requires
        f.wf(),
        0 <= i < n <= items.len(),
        f.in_bounds(px, py),
        text_covers(
            menu_line(items[i], i == selected),
            centered_text_x(f.width, menu_line(items[i], i == selected), 2),
            300 + 50 * i,
            2,
            px,
            py,
        ),
    ensures
        f.with_menu(items, selected, n).pixel(px, py) == menu_color(i == selected),
    decreases n,
{
    lemma_with_menu_size(f, items, selected, n - 1);
    let prev = f.with_menu(items, selected, n - 1);
    let j = n - 1;
    let line = menu_line(items[j], j == selected);
    let lx = centered_text_x(prev.width, line, 2);
    lemma_from_fn_pixel(
        prev.width,
        prev.height,
        |qx: int, qy: int|
            if text_covers(line, lx, menu_y(j), 2, qx, qy) {
                menu_color(j == selected)
            } else {
                prev.pixel(qx, qy)
            },
        px,
        py,
    );
    if j != i {
        lemma_menu_item_pixel(f, items, selected, n - 1, i, px, py);
        law_text_within_width(
            menu_line(items[i], i == selected),
            centered_text_x(f.width, menu_line(items[i], i == selected), 2),
            300 + 50 * i,
            2,
            px,
            py,
        );
        if text_covers(line, lx, menu_y(j), 2, px, py) {
            law_text_within_width(line, lx, menu_y(j), 2, px, py);
            assert(false);
        }
    }
}

/// Law: in a drawn menu, each pixel that the text of item `i` covers, that
/// text being `"> "` then the item for the selected item and `"  "` then the
/// item for the others, centred at height `300 + 50 * i`, is white for the
/// selected item and grey for every other one.
pub proof fn law_menu_item_colors(
    f: Frame,
    items: Seq<Seq<char>>,
    selected: int,
    i: int,
    px: int,
    py: int,
)
    requires
        f.wf(),
        0 <= i < items.len(),
        f.in_bounds(px, py),
        text_covers(
            if i == selected {
                seq!['>', ' '] + items[i]
            } else {
                seq![' ', ' '] + items[i]
            },
            centered_text_x(
                f.width,
                if i == selected {
                    seq!['>', ' '] + items[i]
                } else {
                    seq![' ', ' '] + items[i]
                },
                2,
            ),
            300 + 50 * i,
            2,
            px,
            py,
        ),
    ensures
        f.with_menu(items, selected, items.len() as int).pixel(px, py) == if i == selected {
            0xFFFFFFu32
        } else {
            0x444444u32
        },
{
    lemma_menu_item_pixel(f, items, selected, items.len() as int, i, px, py);
}

/// Law: every screen but the pause menu starts from a cleared background,
/// so what it shows does not depend on what the frame held before.
pub proof fn law_menu_screen_forgets_old_frame(
    f1: Frame,
    f2: Frame,
    ui: Ui,
    score: u32,
    high_score: u32,
)
    requires
        f1.wf(),
        f2.wf(),
        f1.same_size(f2),
        ui.state != GameState::Paused,
    ensures
        f1.with_menu_screen(ui, score, high_score) == f2.with_menu_screen(ui, score, high_score),
{
    assert(f1.filled(COLOR_BG).pixels =~= f2.filled(COLOR_BG).pixels);
    assert(f1.filled(COLOR_BG) == f2.filled(COLOR_BG));
}

/// Law: every screen but the pause menu is drawn on a background of
/// `0x0F0F0F` with the grid on it: before the title and the items are
/// drawn, every pixel is `0x1A1A1A` on a grid line and `0x0F0F0F` elsewhere.
pub proof fn law_menu_screen_background(f: Frame, px: int, py: int)
    requires
        f.wf(),
        f.in_bounds(px, py),
    ensures
        f.filled(COLOR_BG).with_grid().pixel(px, py) == if 0 <= px < 800 && 0 <= py < 600 && (px
            % 40 == 0 || py % 40 == 0) {
            0x1A1A1Au32
        } else {
            0x0F0F0Fu32
        },
{
    crate::frame::lemma_index_in_range(f.width as int, f.height as int, px, py);
    let g = f.filled(COLOR_BG);
    lemma_from_fn_pixel(
        g.width,
        g.height,
        |qx: int, qy: int|
            if on_grid(qx, qy) {
                COLOR_GRID
            } else {
                g.pixel(qx, qy)
            },
        px,
        py,
    );
}

/// A text leaves the pixels above it as they were.
proof fn lemma_text_keeps_above(
    f: Frame,
    s: Seq<char>,
    x: int,
    y: int,
    color: u32,
    scale: int,
    px: int,
    py: int,
)
    requires
        f.in_bounds(px, py),
        0 <= scale,
        py < y,
    ensures
        f.with_text(s, x, y, color, scale).pixel(px, py) == f.pixel(px, py),
        f.with_text(s, x, y, color, scale).same_size(f),
{
    if text_covers(s, x, y, scale, px, py) {
        law_text_within_width(s, x, y, scale, px, py);
    }
    lemma_from_fn_pixel(
        f.width,
        f.height,
        |qx: int, qy: int|
            if text_covers(s, x, y, scale, qx, qy) {
                color
            } else {
                f.pixel(qx, qy)
            },
        px,
        py,
    );
}

/// Menu items leave the pixels above the first item as they were.
proof fn lemma_menu_keeps_above(
    f: Frame,
    items: Seq<Seq<char>>,
    selected: int,
    n: int,
    px: int,
    py: int,
)
    requires
        f.wf(),
        f.in_bounds(px, py),
        py < 300,
    ensures
        f.with_menu(items, selected, n).pixel(px, py) == f.pixel(px, py),
    decreases n,
{
    if n > 0 {
        lemma_menu_keeps_above(f, items, selected, n - 1, px, py);
        lemma_with_menu_size(f, items, selected, n - 1);
        let prev = f.with_menu(items, selected, n - 1);
        let line = menu_line(items[n - 1], n - 1 == selected);
        lemma_text_keeps_above(
            prev,
            line,
            centered_text_x(prev.width, line, 2),
            menu_y(n - 1),
            menu_color(n - 1 == selected),
            2,
            px,
            py,
        );
    }
}

/// Law: above the title (rows 0 to 59) a screen with a menu shows the
/// cleared background with its grid, `0x1A1A1A` on a grid line and
/// `0x0F0F0F` elsewhere; the pause menu shows there what the frame held.
pub proof fn law_menu_screen_above_title(
    f: Frame,
    ui: Ui,
    score: u32,
    high_score: u32,
    px: int,
    py: int,
)
    requires
        f.wf(),
        f.in_bounds(px, py),
        0 <= py < 60,
        ui.state != GameState::Playing,
    ensures
        f.with_menu_screen(ui, score, high_score).pixel(px, py) == if ui.state == GameState::Paused {
            f.pixel(px, py)
        } else if px < 800 && py < 600 && (px % 40 == 0 || py % 40 == 0) {
            0x1A1A1Au32
        } else {
            0x0F0F0Fu32
        },
{
    let items = menu_texts(ui.state, ui.music_enabled);
    let title = title_text(ui.state)->0;
    let sel = ui.menu_selected as int;
    let n = items.len() as int;
    let base = if ui.state == GameState::Paused {
        f
    } else {
        f.filled(COLOR_BG).with_grid()
    };
    if ui.state != GameState::Paused {
        law_menu_screen_background(f, px, py);
        crate::frame::lemma_index_in_range(f.width as int, f.height as int, px, py);
        let g = f.filled(COLOR_BG);
        lemma_from_fn_pixel(
            g.width,
            g.height,
            |qx: int, qy: int|
                if on_grid(qx, qy) {
                    COLOR_GRID
                } else {
                    g.pixel(qx, qy)
                },
            px,
            py,
        );
    }
    let h1 = base.with_centered_text(title, TITLE_Y + 2, COLOR_TITLE_SHADOW, TITLE_SCALE as int);
    lemma_text_keeps_above(
        base,
        title,
        centered_text_x(base.width, title, 5),
        62,
        COLOR_TITLE_SHADOW,
        5,
        px,
        py,
    );
    let h2 = h1.with_centered_text(title, TITLE_Y as int, COLOR_TITLE, TITLE_SCALE as int);
    lemma_text_keeps_above(
        h1,
        title,
        centered_text_x(h1.width, title, 5),
        60,
        COLOR_TITLE,
        5,
        px,
        py,
    );
    lemma_from_fn_pixel(
        h1.width,
        h1.height,
        |qx: int, qy: int|
            if text_covers(title, centered_text_x(h1.width, title, 5), 60, 5, qx, qy) {
                COLOR_TITLE
            } else {
                h1.pixel(qx, qy)
            },
        px,
        py,
    );
    if ui.state == GameState::GameOver {
        let t1 = "FINAL SCORE: "@ + decimal(score as nat);
        let t2 = "BEST SCORE: "@ + decimal(high_score as nat);
        let s1 = h2.with_centered_text(t1, 180, COLOR_FINAL_SCORE, 2);
        lemma_text_keeps_above(h2, t1, centered_text_x(h2.width, t1, 2), 180, COLOR_FINAL_SCORE, 2, px, py);
        let s2 = s1.with_centered_text(t2, 215, COLOR_BEST_SCORE, 1);
        lemma_text_keeps_above(s1, t2, centered_text_x(s1.width, t2, 1), 215, COLOR_BEST_SCORE, 1, px, py);
        lemma_from_fn_pixel(
            s1.width,
            s1.height,
            |qx: int, qy: int|
                if text_covers(t2, centered_text_x(s1.width, t2, 1), 215, 1, qx, qy) {
                    COLOR_BEST_SCORE
                } else {
                    s1.pixel(qx, qy)
                },
            px,
            py,
        );
        lemma_menu_keeps_above(s2, items, sel, n, px, py);
    } else {
        lemma_menu_keeps_above(h2, items, sel, n, px, py);
    }
}

/// Law: a title is drawn in `0x00FF00` over a shadow in `0x004400` two
/// pixels lower, both centred with cells of side 5: a pixel the title covers
/// is green, one that only the shadow covers is dark green, and every other
/// pixel keeps its colour.
pub proof fn law_header_colors(f: Frame, title: Seq<char>, px: int, py: int)
    requires
        f.wf(),
        f.in_bounds(px, py),
    ensures
        ({
            let x = centered_text_x(f.width, title, 5);
            let p = f.with_header(title).pixel(px, py);
            &&& text_covers(title, x, 60, 5, px, py) ==> p == 0x00FF00u32
            &&& !text_covers(title, x, 60, 5, px, py) && text_covers(title, x, 62, 5, px, py) ==> p
                == 0x004400u32
            &&& !text_covers(title, x, 60, 5, px, py) && !text_covers(title, x, 62, 5, px, py) ==> p
                == f.pixel(px, py)
        }),
{
    let x = centered_text_x(f.width, title, 5);
    let h1 = f.with_centered_text(title, TITLE_Y + 2, COLOR_TITLE_SHADOW, TITLE_SCALE as int);
    lemma_from_fn_pixel(
        f.width,
        f.height,
        |qx: int, qy: int|
            if text_covers(title, x, 62, 5, qx, qy) {
                COLOR_TITLE_SHADOW
            } else {
                f.pixel(qx, qy)
            },
        px,
        py,
    );
    lemma_from_fn_pixel(
        h1.width,
        h1.height,
        |qx: int, qy: int|
            if text_covers(title, x, 60, 5, qx, qy) {
                COLOR_TITLE
            } else {
                h1.pixel(qx, qy)
            },
        px,
        py,
    );
}

/// The frame under the menu items of a screen, and that it keeps the size.
proof fn lemma_menu_screen_base(f: Frame, ui: Ui, score: u32, high_score: u32) -> (base: Frame)
    requires
        f.wf(),
        ui.state != GameState::Playing,
    ensures
        base.wf(),
        base.same_size(f),
        f.with_menu_screen(ui, score, high_score) == base.with_menu(
            menu_texts(ui.state, ui.music_enabled),
            ui.menu_selected as int,
            menu_texts(ui.state, ui.music_enabled).len() as int,
        ),
{
    let title = title_text(ui.state)->0;
    let start = if ui.state == GameState::Paused {
        f
    } else {
        f.filled(COLOR_BG).with_grid()
    };
    assert(start.wf()) by {
        if ui.state != GameState::Paused {
            let g = f.filled(COLOR_BG);
            assert(g.with_grid().pixels.len() == g.width * g.height);
        }
    }
    let h1 = start.with_centered_text(title, TITLE_Y + 2, COLOR_TITLE_SHADOW, TITLE_SCALE as int);
    let h2 = h1.with_centered_text(title, TITLE_Y as int, COLOR_TITLE, TITLE_SCALE as int);
    assert(h2.pixels.len() == h2.width * h2.height);
    if ui.state == GameState::GameOver {
        let s1 = h2.with_centered_text(
            "FINAL SCORE: "@ + decimal(score as nat),
            180,
            COLOR_FINAL_SCORE,
            2,
        );
        let s2 = s1.with_centered_text(
            "BEST SCORE: "@ + decimal(high_score as nat),
            215,
            COLOR_BEST_SCORE,
            1,
        );
        assert(s2.pixels.len() == s2.width * s2.height);
        s2
    } else {
        h2
    }
}

/// Law: on every screen with a menu, each pixel that the text of item `i`
/// covers (`"> "` then the label for the highlighted item, `"  "` then the
/// label for the others, centred at height `300 + 50 * i`) is white for the
/// highlighted item and grey for every other one.
pub proof fn law_menu_screen_item_colors(
    f: Frame,
    ui: Ui,
    score: u32,
    high_score: u32,
    i: int,
    px: int,
    py: int,
)
    requires
        f.wf(),
        f.in_bounds(px, py),
        ui.state != GameState::Playing,
        0 <= i < menu_texts(ui.state, ui.music_enabled).len(),
        text_covers(
            if i == ui.menu_selected {
                seq!['>', ' '] + menu_texts(ui.state, ui.music_enabled)[i]
            } else {
                seq![' ', ' '] + menu_texts(ui.state, ui.music_enabled)[i]
            },
            centered_text_x(
                f.width,
                if i == ui.menu_selected {
                    seq!['>', ' '] + menu_texts(ui.state, ui.music_enabled)[i]
                } else {
                    seq![' ', ' '] + menu_texts(ui.state, ui.music_enabled)[i]
                },
                2,
            ),
            300 + 50 * i,
            2,
            px,
            py,
        ),
    ensures
        f.with_menu_screen(ui, score, high_score).pixel(px, py) == if i == ui.menu_selected {
            0xFFFFFFu32
        } else {
            0x444444u32
        },
{
    let base = lemma_menu_screen_base(f, ui, score, high_score);
    law_menu_item_colors(
        base,
        menu_texts(ui.state, ui.music_enabled),
        ui.menu_selected as int,
        i,
        px,
        py,
    );
}

/// Law: the game-over screen shows `FINAL SCORE: ` and the score in white,
/// centred at height 180 with cells of side 2, and `BEST SCORE: ` and the
/// best score in green, centred at height 215 with cells of side 1.
pub proof fn law_game_over_scores(f: Frame, ui: Ui, score: u32, high_score: u32, px: int, py: int)
    requires
        f.wf(),
        f.in_bounds(px, py),
        ui.state == GameState::GameOver,
    ensures
        ({
            let t1 = "FINAL SCORE: "@ + decimal(score as nat);
            let t2 = "BEST SCORE: "@ + decimal(high_score as nat);
            let p = f.with_menu_screen(ui, score, high_score).pixel(px, py);
            &&& text_covers(t1, centered_text_x(f.width, t1, 2), 180, 2, px, py) ==> p == 0xFFFFFFu32
            &&& text_covers(t2, centered_text_x(f.width, t2, 1), 215, 1, px, py) ==> p == 0x00FF00u32
        }),
{
    let items = menu_texts(ui.state, ui.music_enabled);
    let title = title_text(ui.state)->0;
    let sel = ui.menu_selected as int;
    let n = items.len() as int;
    let t1 = "FINAL SCORE: "@ + decimal(score as nat);
    let t2 = "BEST SCORE: "@ + decimal(high_score as nat);
    let g = f.filled(COLOR_BG);
    let start = g.with_grid();
    assert(start.pixels.len() == start.width * start.height);
    let h1 = start.with_centered_text(title, TITLE_Y + 2, COLOR_TITLE_SHADOW, TITLE_SCALE as int);
    let h2 = h1.with_centered_text(title, TITLE_Y as int, COLOR_TITLE, TITLE_SCALE as int);
    let s1 = h2.with_centered_text(t1, 180, COLOR_FINAL_SCORE, 2);
    let s2 = s1.with_centered_text(t2, 215, COLOR_BEST_SCORE, 1);
    let x1 = centered_text_x(f.width, t1, 2);
    let x2 = centered_text_x(f.width, t2, 1);
    lemma_from_fn_pixel(
        h2.width,
        h2.height,
        |qx: int, qy: int|
            if text_covers(t1, x1, 180, 2, qx, qy) {
                COLOR_FINAL_SCORE
            } else {
                h2.pixel(qx, qy)
            },
        px,
        py,
    );
    lemma_from_fn_pixel(
        s1.width,
        s1.height,
        |qx: int, qy: int|
            if text_covers(t2, x2, 215, 1, qx, qy) {
                COLOR_BEST_SCORE
            } else {
                s1.pixel(qx, qy)
            },
        px,
        py,
    );
    if text_covers(t1, x1, 180, 2, px, py) {
        law_text_within_width(t1, x1, 180, 2, px, py);
        if text_covers(t2, x2, 215, 1, px, py) {
            law_text_within_width(t2, x2, 215, 1, px, py);
        }
    }
    if text_covers(t2, x2, 215, 1, px, py) {
        law_text_within_width(t2, x2, 215, 1, px, py);
    }
    assert(s2.pixels.len() == s2.width * s2.height);
    if py < 300 {
        lemma_menu_keeps_above(s2, items, sel, n, px, py);
    }
}

} // verus!
