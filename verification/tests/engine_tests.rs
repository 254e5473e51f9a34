use rust_snake::color::{channels, rgb};
use rust_snake::engine::{Engine, HEIGHT, WIDTH};
use rust_snake::font::{ascii_uppercase, glyph};
use rust_snake::menu::{GameState, Ui};
use rust_snake::ui::{draw_background_grid, draw_header, draw_menu, draw_menu_screen, COLOR_BG, COLOR_GRID};

fn lit(engine: &Engine, color: u32) -> Vec<(usize, usize)> {
    let mut out = Vec::new();
    for y in 0..engine.height() {
        for x in 0..engine.width() {
            if engine.pixel(x, y) == color {
                out.push((x, y));
            }
        }
    }
    out
}

#[test]
fn new_engine_is_black() {
    let engine = Engine::new(4, 3);
    assert_eq!(engine.width(), 4);
    assert_eq!(engine.height(), 3);
    assert_eq!(engine.buffer().len(), 12);
    assert!(engine.buffer().iter().all(|&p| p == 0));
}

#[test]
fn clear_sets_every_pixel() {
    let mut engine = Engine::new(5, 2);
    engine.draw_pixel(1, 1, 7);
    engine.clear(0x123456);
    assert!(engine.buffer().iter().all(|&p| p == 0x123456));
}

#[test]
fn draw_pixel_sets_row_major_index() {
    let mut engine = Engine::new(4, 3);
    engine.draw_pixel(2, 1, 9);
    assert_eq!(engine.buffer()[1 * 4 + 2], 9);
    assert_eq!(engine.pixel(2, 1), 9);
    assert_eq!(lit(&engine, 9), vec![(2, 1)]);
}

#[test]
fn draw_pixel_outside_is_ignored() {
    let mut engine = Engine::new(4, 3);
    engine.draw_pixel(4, 0, 9);
    engine.draw_pixel(0, 3, 9);
    engine.draw_pixel(usize::MAX, usize::MAX, 9);
    assert!(engine.buffer().iter().all(|&p| p == 0));
}

#[test]
fn draw_rect_is_clipped() {
    let mut engine = Engine::new(5, 4);
    engine.draw_rect(3, 2, 4, 4, 1);
    assert_eq!(lit(&engine, 1), vec![(3, 2), (4, 2), (3, 3), (4, 3)]);
}

#[test]
fn draw_rect_empty_changes_nothing() {
    let mut engine = Engine::new(5, 4);
    engine.draw_rect(1, 1, 0, 3, 1);
    engine.draw_rect(1, 1, 3, 0, 1);
    assert!(lit(&engine, 1).is_empty());
}

#[test]
fn glyphs_of_the_font() {
    assert_eq!(glyph('0'), [0b111, 0b101, 0b101, 0b101, 0b111]);
    assert_eq!(glyph('A'), [0b111, 0b101, 0b111, 0b101, 0b101]);
    assert_eq!(glyph('a'), glyph('A'));
    assert_eq!(glyph('z'), [0b111, 0b001, 0b010, 0b100, 0b111]);
    assert_eq!(glyph(' '), [0; 5]);
    assert_eq!(glyph('#'), [0; 5]);
    assert_eq!(glyph('é'), [0; 5]);
}

#[test]
fn uppercase_only_ascii_letters() {
    assert_eq!(ascii_uppercase('q'), 'Q');
    assert_eq!(ascii_uppercase('Q'), 'Q');
    assert_eq!(ascii_uppercase('1'), '1');
    assert_eq!(ascii_uppercase('é'), 'é');
    assert_eq!(ascii_uppercase('{'), '{');
}

#[test]
fn draw_char_one() {
    let mut engine = Engine::new(8, 8);
    engine.draw_char(1, 2, '1', 5, 1);
    // 010 / 110 / 010 / 010 / 111
    let expected = vec![
        (2, 2),
        (1, 3),
        (2, 3),
        (2, 4),
        (2, 5),
        (1, 6),
        (2, 6),
        (3, 6),
    ];
    assert_eq!(lit(&engine, 5), expected);
}

#[test]
fn draw_char_scaled() {
    let mut engine = Engine::new(10, 12);
    engine.draw_char(0, 0, 'l', 5, 2);
    // L: 100 / 100 / 100 / 100 / 111, cells of two by two
    let pixels = lit(&engine, 5);
    assert_eq!(pixels.len(), 4 * 7);
    assert!(pixels.contains(&(0, 0)) && pixels.contains(&(1, 9)) && pixels.contains(&(5, 9)));
    assert!(!pixels.contains(&(2, 0)));
}

#[test]
fn draw_string_advances_four_cells() {
    let mut a = Engine::new(20, 6);
    a.draw_string(0, 0, "11", 5, 1);
    let mut b = Engine::new(20, 6);
    b.draw_char(0, 0, '1', 5, 1);
    b.draw_char(4, 0, '1', 5, 1);
    assert_eq!(a.buffer(), b.buffer());
}

#[test]
fn string_width_counts_bytes() {
    let engine = Engine::new(1, 1);
    assert_eq!(engine.get_string_width("", 3), 0);
    assert_eq!(engine.get_string_width("A", 1), 3);
    assert_eq!(engine.get_string_width("SCORE", 2), 38);
    assert_eq!(engine.get_string_width("é", 1), 7);
    assert_eq!(engine.get_string_width("ABC", 0), 0);
}

#[test]
fn drawing_stays_within_string_width() {
    let mut engine = Engine::new(60, 12);
    engine.draw_string(3, 1, "MW8", 5, 2);
    let width = engine.get_string_width("MW8", 2);
    for (x, y) in lit(&engine, 5) {
        assert!(x >= 3 && x < 3 + width);
        assert!(y >= 1 && y < 1 + 10);
    }
    assert!(lit(&engine, 5).iter().any(|&(x, _)| x == 3 + width - 1));
}

#[test]
fn centered_string_position() {
    let mut a = Engine::new(21, 5);
    a.draw_string_centered(0, "A", 5, 1);
    let mut b = Engine::new(21, 5);
    b.draw_string(9, 0, "A", 5, 1);
    assert_eq!(a.buffer(), b.buffer());
}

#[test]
fn centered_string_too_wide_starts_at_left() {
    let mut a = Engine::new(5, 5);
    a.draw_string_centered(0, "AAA", 5, 1);
    let mut b = Engine::new(5, 5);
    b.draw_string(0, 0, "AAA", 5, 1);
    assert_eq!(a.buffer(), b.buffer());
}

#[test]
fn background_grid_lines() {
    let mut engine = Engine::new(WIDTH, HEIGHT);
    draw_background_grid(&mut engine);
    assert_eq!(engine.pixel(0, 7), COLOR_GRID);
    assert_eq!(engine.pixel(40, 599), COLOR_GRID);
    assert_eq!(engine.pixel(13, 80), COLOR_GRID);
    assert_eq!(engine.pixel(41, 41), 0);
    assert_eq!(engine.pixel(799, 599), 0);
    let on_grid = engine.buffer().iter().filter(|&&p| p == COLOR_GRID).count();
    assert_eq!(on_grid, 20 * 600 + 15 * 800 - 20 * 15);
}

#[test]
fn background_grid_on_small_frame() {
    let mut engine = Engine::new(3, 2);
    draw_background_grid(&mut engine);
    assert_eq!(engine.buffer(), &[COLOR_GRID, COLOR_GRID, COLOR_GRID, COLOR_GRID, 0, 0][..]);
}

#[test]
fn header_draws_shadow_then_title() {
    let mut engine = Engine::new(WIDTH, HEIGHT);
    draw_header(&mut engine, "I");
    // "I" is 15 pixels wide at scale 5: it starts at (800 - 15) / 2 = 392.
    assert_eq!(engine.pixel(392, 60), 0x00FF00);
    assert_eq!(engine.pixel(392, 86), 0x004400);
    assert_eq!(engine.pixel(392, 84), 0x00FF00);
    assert_eq!(engine.pixel(391, 60), 0);
}

#[test]
fn menu_marks_the_selected_item() {
    let mut a = Engine::new(WIDTH, HEIGHT);
    draw_menu(&mut a, &["AB", "C"], 1);
    let mut b = Engine::new(WIDTH, HEIGHT);
    b.draw_string_centered(300, "  AB", 0x444444, 2);
    b.draw_string_centered(350, "> C", 0xFFFFFF, 2);
    assert_eq!(a.buffer(), b.buffer());
}

#[test]
fn color_channels_round_trip() {
    assert_eq!(channels(0x12_34_56), (0x12, 0x34, 0x56));
    assert_eq!(channels(0xAB_12_34_56), (0x12, 0x34, 0x56));
    assert_eq!(rgb(0x12, 0x34, 0x56), 0x12_34_56);
    let (r, g, b) = channels(0x44FF4444);
    assert_eq!(rgb(r, g, b), 0xFF4444);
}

#[test]
fn main_menu_screen() {
    let ui = Ui::new();
    let mut a = Engine::new(WIDTH, HEIGHT);
    draw_menu_screen(&mut a, &ui, 0, 0);
    let mut b = Engine::new(WIDTH, HEIGHT);
    b.clear(COLOR_BG);
    draw_background_grid(&mut b);
    draw_header(&mut b, "RUST SNAKE");
    draw_menu(&mut b, &["START GAME", "SETTINGS", "QUIT"], 0);
    assert_eq!(a.buffer(), b.buffer());
    assert_eq!(a.pixel(41, 41), COLOR_BG);
}

#[test]
fn game_over_screen_shows_scores() {
    let ui = Ui { state: GameState::GameOver, previous_state: GameState::Menu, menu_selected: 2, music_enabled: false };
    let mut a = Engine::new(WIDTH, HEIGHT);
    draw_menu_screen(&mut a, &ui, 120, 340);
    let mut b = Engine::new(WIDTH, HEIGHT);
    b.clear(COLOR_BG);
    draw_background_grid(&mut b);
    draw_header(&mut b, "GAME OVER");
    b.draw_string_centered(180, "FINAL SCORE: 120", 0xFFFFFF, 2);
    b.draw_string_centered(215, "BEST SCORE: 340", 0x00FF00, 1);
    draw_menu(&mut b, &["RESTART", "MAIN MENU", "QUIT"], 2);
    assert_eq!(a.buffer(), b.buffer());
}

#[test]
fn pause_screen_draws_over_the_game() {
    let ui = Ui { state: GameState::Paused, previous_state: GameState::Menu, menu_selected: 1, music_enabled: true };
    let mut a = Engine::new(WIDTH, HEIGHT);
    a.clear(0x777777);
    draw_menu_screen(&mut a, &ui, 0, 0);
    let mut b = Engine::new(WIDTH, HEIGHT);
    b.clear(0x777777);
    draw_header(&mut b, "PAUSED");
    draw_menu(&mut b, &["RESUME", "SETTINGS", "MAIN MENU", "QUIT"], 1);
    assert_eq!(a.buffer(), b.buffer());
    assert_eq!(a.pixel(0, 0), 0x777777);
}

#[test]
fn empty_frame_ignores_drawing() {
    let mut engine = Engine::new(0, 5);
    assert!(engine.buffer().is_empty());
    engine.draw_pixel(0, 0, 1);
    engine.draw_rect(0, 0, 3, 3, 1);
    engine.draw_string_centered(0, "HI", 1, 1);
    engine.clear(2);
    assert!(engine.buffer().is_empty());
}

#[test]
fn draw_rect_at_the_edge_of_usize() {
    let mut engine = Engine::new(3, 3);
    engine.draw_rect(usize::MAX, 1, 1, 1, 4);
    engine.draw_rect(2, 2, 1, 1, 4);
    assert_eq!(lit(&engine, 4), vec![(2, 2)]);
}
