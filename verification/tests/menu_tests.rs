use rust_snake::menu::{menu_items, screen_title, Effect, GameState, Keys, Reaction, Ui};

fn keys(up: bool, down: bool, enter: bool, space: bool, escape: bool) -> Keys {
    Keys { up, down, enter, space, escape }
}

fn none() -> Keys {
    keys(false, false, false, false, false)
}

fn up() -> Keys {
    keys(true, false, false, false, false)
}

fn down() -> Keys {
    keys(false, true, false, false, false)
}

fn enter() -> Keys {
    keys(false, false, true, false, false)
}

fn space() -> Keys {
    keys(false, false, false, true, false)
}

fn escape() -> Keys {
    keys(false, false, false, false, true)
}

fn taken(effect: Effect) -> Reaction {
    Reaction { effect, restart_cooldown: true }
}

fn idle() -> Reaction {
    Reaction { effect: Effect::Nothing, restart_cooldown: false }
}

#[test]
fn starts_in_main_menu() {
    let ui = Ui::new();
    assert_eq!(ui.state, GameState::Menu);
    assert_eq!(ui.previous_state, GameState::Menu);
    assert_eq!(ui.menu_selected, 0);
    assert!(ui.music_enabled);
}

#[test]
fn main_menu_navigation_wraps() {
    let mut ui = Ui::new();
    assert_eq!(ui.step(up(), true, false), taken(Effect::Nothing));
    assert_eq!(ui.menu_selected, 2);
    assert_eq!(ui.step(down(), true, false), taken(Effect::Nothing));
    assert_eq!(ui.menu_selected, 0);
    ui.step(down(), true, false);
    ui.step(down(), true, false);
    ui.step(down(), true, false);
    assert_eq!(ui.menu_selected, 0);
}

#[test]
fn up_wins_over_down_and_enter() {
    let mut ui = Ui::new();
    ui.step(keys(true, true, true, false, false), true, false);
    assert_eq!(ui.menu_selected, 2);
    assert_eq!(ui.state, GameState::Menu);
}

#[test]
fn cooldown_ignores_keys() {
    let mut ui = Ui::new();
    assert_eq!(ui.step(down(), false, false), idle());
    assert_eq!(ui, Ui::new());
    assert_eq!(ui.step(none(), true, false), idle());
    assert_eq!(ui, Ui::new());
}

#[test]
fn start_game_from_main_menu() {
    let mut ui = Ui::new();
    assert_eq!(ui.step(space(), true, false), taken(Effect::NewGame));
    assert_eq!(ui.state, GameState::Playing);
}

#[test]
fn quit_from_main_menu() {
    let mut ui = Ui::new();
    ui.step(up(), true, false);
    let r = ui.step(enter(), true, false);
    assert_eq!(r, Reaction { effect: Effect::Quit, restart_cooldown: false });
}

#[test]
fn settings_toggle_music_and_back() {
    let mut ui = Ui::new();
    ui.step(down(), true, false);
    assert_eq!(ui.step(enter(), true, false), taken(Effect::Nothing));
    assert_eq!(ui.state, GameState::Settings);
    assert_eq!(ui.menu_selected, 0);
    assert_eq!(ui.step(enter(), true, false), taken(Effect::MusicOff));
    assert!(!ui.music_enabled);
    assert_eq!(ui.step(enter(), true, false), taken(Effect::MusicOn));
    assert!(ui.music_enabled);
    ui.step(up(), true, false);
    assert_eq!(ui.menu_selected, 1);
    ui.step(enter(), true, false);
    assert_eq!(ui.state, GameState::Menu);
    assert_eq!(ui.menu_selected, 0);
}

#[test]
fn pause_escape_resume() {
    let mut ui = Ui::new();
    ui.step(enter(), true, false);
    assert_eq!(ui.step(escape(), false, false), idle());
    assert_eq!(ui.state, GameState::Playing);
    assert_eq!(ui.step(escape(), true, false), taken(Effect::Nothing));
    assert_eq!(ui.state, GameState::Paused);
    ui.step(down(), true, false);
    ui.step(down(), true, false);
    assert_eq!(ui.menu_selected, 2);
    assert_eq!(ui.step(escape(), true, false), taken(Effect::Nothing));
    assert_eq!(ui.state, GameState::Playing);
    assert_eq!(ui.menu_selected, 2);
}

#[test]
fn pause_menu_items() {
    let mut ui = Ui::new();
    ui.step(enter(), true, false);
    ui.step(escape(), true, false);
    ui.step(down(), true, false);
    ui.step(enter(), true, false);
    assert_eq!(ui.state, GameState::Settings);
    assert_eq!(ui.previous_state, GameState::Paused);
    ui.step(down(), true, false);
    ui.step(enter(), true, false);
    assert_eq!(ui.state, GameState::Paused);
    ui.step(up(), true, false);
    assert_eq!(ui.menu_selected, 3);
    assert_eq!(ui.step(enter(), true, false).effect, Effect::Quit);
    ui.step(up(), true, false);
    ui.step(enter(), true, false);
    assert_eq!(ui.state, GameState::Menu);
    assert_eq!(ui.menu_selected, 0);
}

#[test]
fn game_over_then_restart() {
    let mut ui = Ui::new();
    ui.step(enter(), true, false);
    assert_eq!(ui.step(none(), true, true), idle());
    assert_eq!(ui.state, GameState::GameOver);
    assert_eq!(ui.step(enter(), true, false), taken(Effect::NewGame));
    assert_eq!(ui.state, GameState::Playing);
}

#[test]
fn pause_and_game_over_in_one_frame() {
    let mut ui = Ui::new();
    ui.step(enter(), true, false);
    let r = ui.step(escape(), true, true);
    assert_eq!(r, taken(Effect::Nothing));
    assert_eq!(ui.state, GameState::GameOver);
    assert_eq!(ui.menu_selected, 0);
}

#[test]
fn game_over_menu() {
    let mut ui = Ui::new();
    ui.step(enter(), true, false);
    ui.step(none(), true, true);
    ui.step(down(), true, false);
    ui.step(enter(), true, false);
    assert_eq!(ui.state, GameState::Menu);
    ui.step(enter(), true, false);
    ui.step(none(), true, true);
    ui.step(up(), true, false);
    assert_eq!(ui.step(space(), true, false).effect, Effect::Quit);
}

#[test]
fn items_and_titles() {
    assert_eq!(menu_items(GameState::Menu, true), vec!["START GAME", "SETTINGS", "QUIT"]);
    assert_eq!(menu_items(GameState::Settings, true), vec!["MUSIC: ON", "BACK"]);
    assert_eq!(menu_items(GameState::Settings, false), vec!["MUSIC: OFF", "BACK"]);
    assert!(menu_items(GameState::Playing, true).is_empty());
    assert_eq!(
        menu_items(GameState::Paused, true),
        vec!["RESUME", "SETTINGS", "MAIN MENU", "QUIT"]
    );
    assert_eq!(menu_items(GameState::GameOver, false), vec!["RESTART", "MAIN MENU", "QUIT"]);
    assert_eq!(screen_title(GameState::Menu), Some("RUST SNAKE"));
    assert_eq!(screen_title(GameState::Settings), Some("SETTINGS"));
    assert_eq!(screen_title(GameState::Paused), Some("PAUSED"));
    assert_eq!(screen_title(GameState::GameOver), Some("GAME OVER"));
    assert_eq!(screen_title(GameState::Playing), None);
}
