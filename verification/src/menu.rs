//! The screens of the game and how the keys move between them: the main
//! menu, the settings, play, the pause menu and the game-over screen.
use vstd::prelude::*;

verus! {

/// The screen that the game shows.
#[derive(Clone, Copy, PartialEq, Eq, Structural, Debug)]
pub enum GameState {
    Menu,
    Settings,
    Playing,
    Paused,
    GameOver,
}

/// The keys held down during one frame.
#[derive(Clone, Copy, PartialEq, Eq, Structural, Debug)]
pub struct Keys {
    pub up: bool,
    pub down: bool,
    pub enter: bool,
    pub space: bool,
    pub escape: bool,
}

/// What the game loop must do besides switching screens.
#[derive(Clone, Copy, PartialEq, Eq, Structural, Debug)]
pub enum Effect {
    /// Nothing more.
    Nothing,
    /// Start a new game (the old one is dropped).
    NewGame,
    /// Leave the game.
    Quit,
    /// The music was switched on: start it again.
    MusicOn,
    /// The music was switched off: stop it.
    MusicOff,
}

/// The answer to one frame's keys.
#[derive(Clone, Copy, PartialEq, Eq, Structural, Debug)]
pub struct Reaction {
    pub effect: Effect,
    /// Whether a key was taken, so that the key cooldown starts again.
    pub restart_cooldown: bool,
}

/// The state of the menus: the screen, the screen that the settings return
/// to, the highlighted menu item and whether music plays.
#[derive(Clone, Copy, PartialEq, Eq, Structural, Debug)]
pub struct Ui {
    pub state: GameState,
    pub previous_state: GameState,
    pub menu_selected: usize,
    pub music_enabled: bool,
}

/// How many items the menu of a screen has. During play there is no menu;
/// the selection left by the pause menu is kept, so its bound is that menu's.
pub open spec fn selection_bound(state: GameState) -> nat {
    match state {
        GameState::Menu => 3,
        GameState::Settings => 2,
        GameState::Playing => 4,
        GameState::Paused => 4,
        GameState::GameOver => 3,
    }
}

/// Whether the keys choose the highlighted item.
pub open spec fn select_pressed(keys: Keys) -> bool {
    keys.enter || keys.space
}

/// A reaction that takes a key, with the given effect.
pub open spec fn taken(effect: Effect) -> Reaction {
    Reaction { effect, restart_cooldown: true }
}

/// The reaction to a frame in which nothing happens.
pub open spec fn idle() -> Reaction {
    Reaction { effect: Effect::Nothing, restart_cooldown: false }
}

/// The next state of the menus, and the reaction, after a frame with `keys`
/// held; `can_press` tells whether the key cooldown has run out, and
/// `game_over` whether the game ended during this frame of play.
pub open spec fn next(ui: Ui, keys: Keys, can_press: bool, game_over: bool) -> (Ui, Reaction) {
    let sel = ui.menu_selected;
    match ui.state {
        GameState::Menu => {
            if !can_press {
                (ui, idle())
            } else if keys.up {
                (Ui { menu_selected: ((sel + 2) % 3) as usize, ..ui }, taken(Effect::Nothing))
            } else if keys.down {
                (Ui { menu_selected: ((sel + 1) % 3) as usize, ..ui }, taken(Effect::Nothing))
            } else if select_pressed(keys) {
                if sel == 0 {
                    (Ui { state: GameState::Playing, ..ui }, taken(Effect::NewGame))
                } else if sel == 1 {
                    (
                        Ui {
                            state: GameState::Settings,
                            previous_state: GameState::Menu,
                            menu_selected: 0,
                            ..ui
                        },
                        taken(Effect::Nothing),
                    )
                } else if sel == 2 {
                    (ui, Reaction { effect: Effect::Quit, restart_cooldown: false })
                } else {
                    (ui, taken(Effect::Nothing))
                }
            } else {
                (ui, idle())
            }
        },
        GameState::Settings => {
            if !can_press {
                (ui, idle())
            } else if keys.up || keys.down {
                (Ui { menu_selected: (1 - sel) as usize, ..ui }, taken(Effect::Nothing))
            } else if select_pressed(keys) {
                if sel == 0 {
                    (
                        Ui { music_enabled: !ui.music_enabled, ..ui },
                        taken(
                            if ui.music_enabled {
                                Effect::MusicOff
                            } else {
                                Effect::MusicOn
                            },
                        ),
                    )
                } else {
                    (Ui { state: ui.previous_state, menu_selected: 0, ..ui }, taken(Effect::Nothing))
                }
            } else {
                (ui, idle())
            }
        },
        GameState::Playing => {
            let paused = keys.escape && can_press;
            let after_keys = if paused {
                Ui { state: GameState::Paused, menu_selected: 0, ..ui }
            } else {
                ui
            };
            let after = if game_over {
                Ui { state: GameState::GameOver, menu_selected: 0, ..after_keys }
            } else {
                after_keys
            };
            (after, Reaction { effect: Effect::Nothing, restart_cooldown: paused })
        },
        GameState::Paused => {
            if !can_press {
                (ui, idle())
            } else if keys.up {
                (Ui { menu_selected: ((sel + 3) % 4) as usize, ..ui }, taken(Effect::Nothing))
            } else if keys.down {
                (Ui { menu_selected: ((sel + 1) % 4) as usize, ..ui }, taken(Effect::Nothing))
            } else if select_pressed(keys) {
                if sel == 0 {
                    (Ui { state: GameState::Playing, ..ui }, taken(Effect::Nothing))
                } else if sel == 1 {
                    (
                        Ui {
                            state: GameState::Settings,
                            previous_state: GameState::Paused,
                            menu_selected: 0,
                            ..ui
                        },
                        taken(Effect::Nothing),
                    )
                } else if sel == 2 {
                    (Ui { state: GameState::Menu, menu_selected: 0, ..ui }, taken(Effect::Nothing))
                } else if sel == 3 {
                    (ui, Reaction { effect: Effect::Quit, restart_cooldown: false })
                } else {
                    (ui, taken(Effect::Nothing))
                }
            } else if keys.escape {
                (Ui { state: GameState::Playing, ..ui }, taken(Effect::Nothing))
            } else {
                (ui, idle())
            }
        },
        GameState::GameOver => {
            if !can_press {
                (ui, idle())
            } else if keys.up {
                (Ui { menu_selected: ((sel + 2) % 3) as usize, ..ui }, taken(Effect::Nothing))
            } else if keys.down {
                (Ui { menu_selected: ((sel + 1) % 3) as usize, ..ui }, taken(Effect::Nothing))
            } else if select_pressed(keys) {
                if sel == 0 {
                    (Ui { state: GameState::Playing, ..ui }, taken(Effect::NewGame))
                } else if sel == 1 {
                    (Ui { state: GameState::Menu, menu_selected: 0, ..ui }, taken(Effect::Nothing))
                } else if sel == 2 {
                    (ui, Reaction { effect: Effect::Quit, restart_cooldown: false })
                } else {
                    (ui, taken(Effect::Nothing))
                }
            } else {
                (ui, idle())
            }
        },
    }
}

impl Ui {
    /// The highlighted item is one of the screen's menu, and the settings
    /// return to the main menu or to the pause menu.
    pub open spec fn wf(self) -> bool {
        &&& self.menu_selected < selection_bound(self.state)
        &&& (self.previous_state == GameState::Menu || self.previous_state == GameState::Paused)
    }

    /// The main menu, its first item highlighted, with music on.
    pub fn new() -> (r: Ui)
        ensures
            r.wf(),
            r == (Ui {
                state: GameState::Menu,
                previous_state: GameState::Menu,
                menu_selected: 0,
                music_enabled: true,
            }),
    {
        Ui {
            state: GameState::Menu,
            previous_state: GameState::Menu,
            menu_selected: 0,
            music_enabled: true,
        }
    }

    /// Takes one frame's keys. In play, call it after the game was updated,
    /// with `game_over` telling whether that update ended the game.
    pub fn step(&mut self, keys: Keys, can_press: bool, game_over: bool) -> (r: Reaction)
        requires
            old(self).wf(),
        ensures
            final(self).wf(),
            (*final(self), r) == next(*old(self), keys, can_press, game_over),
    {
        let select = keys.enter || keys.space;
        match self.state {
            GameState::Menu => {
                if can_press {
                    if keys.up {
                        self.menu_selected = (self.menu_selected + 3 - 1) % 3;
                        Reaction { effect: Effect::Nothing, restart_cooldown: true }
                    } else if keys.down {
                        self.menu_selected = (self.menu_selected + 1) % 3;
                        Reaction { effect: Effect::Nothing, restart_cooldown: true }
                    } else if select {
                        match self.menu_selected {
                            0 => {
                                self.state = GameState::Playing;
                                Reaction { effect: Effect::NewGame, restart_cooldown: true }
                            },
                            1 => {
                                self.previous_state = GameState::Menu;
                                self.menu_selected = 0;
                                self.state = GameState::Settings;
                                Reaction { effect: Effect::Nothing, restart_cooldown: true }
                            },
                            2 => Reaction { effect: Effect::Quit, restart_cooldown: false },
                            _ => Reaction { effect: Effect::Nothing, restart_cooldown: true },
                        }
                    } else {
                        Reaction { effect: Effect::Nothing, restart_cooldown: false }
                    }
                } else {
                    Reaction { effect: Effect::Nothing, restart_cooldown: false }
                }
            },
            GameState::Settings => {
                if can_press {
                    if keys.up || keys.down {
                        self.menu_selected = 1 - self.menu_selected;
                        Reaction { effect: Effect::Nothing, restart_cooldown: true }
                    } else if select {
                        if self.menu_selected == 0 {
                            self.music_enabled = !self.music_enabled;
                            let effect = if self.music_enabled {
                                Effect::MusicOn
                            } else {
                                Effect::MusicOff
                            };
                            Reaction { effect, restart_cooldown: true }
                        } else {
                            self.state = self.previous_state;
                            self.menu_selected = 0;
                            Reaction { effect: Effect::Nothing, restart_cooldown: true }
                        }
                    } else {
                        Reaction { effect: Effect::Nothing, restart_cooldown: false }
                    }
                } else {
                    Reaction { effect: Effect::Nothing, restart_cooldown: false }
                }
            },
            GameState::Playing => {
                let mut restart_cooldown = false;
                if keys.escape && can_press {
                    self.state = GameState::Paused;
                    self.menu_selected = 0;
                    restart_cooldown = true;
                }
                if game_over {
                    self.state = GameState::GameOver;
                    self.menu_selected = 0;
                }
                Reaction { effect: Effect::Nothing, restart_cooldown }
            },
            GameState::Paused => {
                if can_press {
                    if keys.up {
                        self.menu_selected = (self.menu_selected + 4 - 1) % 4;
                        Reaction { effect: Effect::Nothing, restart_cooldown: true }
                    } else if keys.down {
                        self.menu_selected = (self.menu_selected + 1) % 4;
                        Reaction { effect: Effect::Nothing, restart_cooldown: true }
                    } else if select {
                        match self.menu_selected {
                            0 => {
                                self.state = GameState::Playing;
                            },
                            1 => {
                                self.previous_state = GameState::Paused;
                                self.menu_selected = 0;
                                self.state = GameState::Settings;
                            },
                            2 => {
                                self.state = GameState::Menu;
                                self.menu_selected = 0;
                            },
                            3 => {
                                return Reaction { effect: Effect::Quit, restart_cooldown: false };
                            },
                            _ => {},
                        }
                        Reaction { effect: Effect::Nothing, restart_cooldown: true }
                    } else if keys.escape {
                        self.state = GameState::Playing;
                        Reaction { effect: Effect::Nothing, restart_cooldown: true }
                    } else {
                        Reaction { effect: Effect::Nothing, restart_cooldown: false }
                    }
                } else {
                    Reaction { effect: Effect::Nothing, restart_cooldown: false }
                }
            },
            GameState::GameOver => {
                if can_press {
                    if keys.up {
                        self.menu_selected = (self.menu_selected + 3 - 1) % 3;
                        Reaction { effect: Effect::Nothing, restart_cooldown: true }
                    } else if keys.down {
                        self.menu_selected = (self.menu_selected + 1) % 3;
                        Reaction { effect: Effect::Nothing, restart_cooldown: true }
                    } else if select {
                        match self.menu_selected {
                            0 => {
                                self.state = GameState::Playing;
                                Reaction { effect: Effect::NewGame, restart_cooldown: true }
                            },
                            1 => {
                                self.state = GameState::Menu;
                                self.menu_selected = 0;
                                Reaction { effect: Effect::Nothing, restart_cooldown: true }
                            },
                            2 => Reaction { effect: Effect::Quit, restart_cooldown: false },
                            _ => Reaction { effect: Effect::Nothing, restart_cooldown: true },
                        }
                    } else {
                        Reaction { effect: Effect::Nothing, restart_cooldown: false }
                    }
                } else {
                    Reaction { effect: Effect::Nothing, restart_cooldown: false }
                }
            },
        }
    }
}

/// The items of a screen's menu, top first; the play screen has none.
pub open spec fn menu_texts(state: GameState, music_enabled: bool) -> Seq<Seq<char>> {
    match state {
        GameState::Menu => seq!["START GAME"@, "SETTINGS"@, "QUIT"@],
        GameState::Settings => seq![
            if music_enabled {
                "MUSIC: ON"@
            } else {
                "MUSIC: OFF"@
            },
            "BACK"@,
        ],
        GameState::Playing => seq![],
        GameState::Paused => seq!["RESUME"@, "SETTINGS"@, "MAIN MENU"@, "QUIT"@],
        GameState::GameOver => seq!["RESTART"@, "MAIN MENU"@, "QUIT"@],
    }
}

/// The title of a screen; the play screen has none.
pub open spec fn title_text(state: GameState) -> Option<Seq<char>> {
    match state {
        GameState::Menu => Some("RUST SNAKE"@),
        GameState::Settings => Some("SETTINGS"@),
        GameState::Playing => None,
        GameState::Paused => Some("PAUSED"@),
        GameState::GameOver => Some("GAME OVER"@),
    }
}

/// The items of the menu of `state`, top first.
pub fn menu_items(state: GameState, music_enabled: bool) -> (r: Vec<&'static str>)
    ensures
        r@.map_values(|s: &str| s@) == menu_texts(state, music_enabled),
{
    let mut items: Vec<&'static str> = Vec::new();
    match state {
        GameState::Menu => {
            items.push("START GAME");
            items.push("SETTINGS");
            items.push("QUIT");
        },
        GameState::Settings => {
            items.push(
                if music_enabled {
                    "MUSIC: ON"
                } else {
                    "MUSIC: OFF"
                },
            );
            items.push("BACK");
        },
        GameState::Playing => {},
        GameState::Paused => {
            items.push("RESUME");
            items.push("SETTINGS");
            items.push("MAIN MENU");
            items.push("QUIT");
        },
        GameState::GameOver => {
            items.push("RESTART");
            items.push("MAIN MENU");
            items.push("QUIT");
        },
    }
    assert(items@.map_values(|s: &str| s@) =~= menu_texts(state, music_enabled));
    items
}

/// The title of the screen `state`, if it has one.
pub fn screen_title(state: GameState) -> (r: Option<&'static str>)
    ensures
        match r {
            Some(t) => title_text(state) == Some(t@),
            None => title_text(state) is None,
        },
{
    match state {
        GameState::Menu => Some("RUST SNAKE"),
        GameState::Settings => Some("SETTINGS"),
        GameState::Playing => None,
        GameState::Paused => Some("PAUSED"),
        GameState::GameOver => Some("GAME OVER"),
    }
}

/// Only the up key.
pub open spec fn key_up() -> Keys {
    Keys { up: true, down: false, enter: false, space: false, escape: false }
}

/// Only the down key.
pub open spec fn key_down() -> Keys {
    Keys { up: false, down: true, enter: false, space: false, escape: false }
}

/// Only the enter key.
pub open spec fn key_enter() -> Keys {
    Keys { up: false, down: false, enter: true, space: false, escape: false }
}

/// Only the escape key.
pub open spec fn key_escape() -> Keys {
    Keys { up: false, down: false, enter: false, space: false, escape: true }
}

/// Law: the highlighted item of a screen with a menu is one of its items.
pub proof fn law_selection_within_menu(ui: Ui)
    requires
        ui.wf(),
        ui.state != GameState::Playing,
    ensures
        ui.menu_selected < menu_texts(ui.state, ui.music_enabled).len(),
{
}

/// Law: on a screen with a menu, down undoes up.
pub proof fn law_down_undoes_up(ui: Ui)
    requires
        ui.wf(),
        ui.state != GameState::Playing,
    ensures
        next(next(ui, key_up(), true, false).0, key_down(), true, false).0 == ui,
{
}

/// Law: up from the first item highlights the last one.
pub proof fn law_up_wraps_to_last(ui: Ui)
    requires
        ui.wf(),
        ui.state != GameState::Playing,
        ui.menu_selected == 0,
    ensures
        next(ui, key_up(), true, false).0.menu_selected == selection_bound(ui.state) - 1,
{
}

/// Law: from the main menu or the pause menu, the settings' BACK item leads
/// back to where the settings were opened, with the music setting as it was.
pub proof fn law_settings_return(ui: Ui)
    requires
        ui.wf(),
        ui.state == GameState::Menu || ui.state == GameState::Paused,
        ui.menu_selected == 1,
    ensures
        next(ui, key_enter(), true, false).0.state == GameState::Settings,
        ({
            let settings = next(ui, key_enter(), true, false).0;
            let on_back = next(settings, key_down(), true, false).0;
            let back = next(on_back, key_enter(), true, false).0;
            &&& back.state == ui.state
            &&& back.menu_selected == 0
            &&& back.music_enabled == ui.music_enabled
        }),
{
}

/// Law: escape pauses the game and escape again resumes it, with the first
/// item of the pause menu left highlighted.
pub proof fn law_pause_then_resume(ui: Ui)
    requires
        ui.wf(),
        ui.state == GameState::Playing,
    ensures
        next(ui, key_escape(), true, false).0.state == GameState::Paused,
        next(next(ui, key_escape(), true, false).0, key_escape(), true, false).0 == (Ui {
            menu_selected: 0,
            ..ui
        }),
{
}

/// Law: switching the music twice leaves it as it was; the first switch
/// stops music that played and starts music that did not.
pub proof fn law_music_switch(ui: Ui)
    requires
        ui.wf(),
        ui.state == GameState::Settings,
        ui.menu_selected == 0,
    ensures
        next(ui, key_enter(), true, false).1.effect == if ui.music_enabled {
            Effect::MusicOff
        } else {
            Effect::MusicOn
        },
        next(next(ui, key_enter(), true, false).0, key_enter(), true, false).0 == ui,
{
}

/// Law: while the key cooldown runs and the game goes on, nothing changes.
pub proof fn law_cooldown_ignores_keys(ui: Ui, keys: Keys)
    ensures
        next(ui, keys, false, false) == (ui, Reaction { effect: Effect::Nothing, restart_cooldown: false }),
{
}

/// Law: the game is left only by choosing a QUIT item, the last of its menu.
pub proof fn law_quit_only_by_quit_item(ui: Ui, keys: Keys, can_press: bool, game_over: bool)
    requires
        ui.wf(),
        next(ui, keys, can_press, game_over).1.effect == Effect::Quit,
    ensures
        ui.state == GameState::Menu || ui.state == GameState::Paused || ui.state
            == GameState::GameOver,
        can_press,
        select_pressed(keys),
        ui.menu_selected == selection_bound(ui.state) - 1,
        menu_texts(ui.state, ui.music_enabled)[ui.menu_selected as int] == "QUIT"@,
{
}

/// Law: a new game starts only from START GAME or RESTART, and play follows.
pub proof fn law_new_game_starts_play(ui: Ui, keys: Keys, can_press: bool, game_over: bool)
    requires
        ui.wf(),
        next(ui, keys, can_press, game_over).1.effect == Effect::NewGame,
    ensures
        ui.state == GameState::Menu || ui.state == GameState::GameOver,
        ui.menu_selected == 0,
        next(ui, keys, can_press, game_over).0.state == GameState::Playing,
{
}

/// Law: when the game ends during play, the game-over screen follows with
/// its first item highlighted.
pub proof fn law_game_over_follows(ui: Ui, keys: Keys, can_press: bool)
    requires
        ui.state == GameState::Playing,
    ensures
        next(ui, keys, can_press, true).0.state == GameState::GameOver,
        next(ui, keys, can_press, true).0.menu_selected == 0,
{
}

/// Law: choosing the highlighted item (Enter or Space, no arrow, cooldown
/// over) does what its label says: START GAME and RESTART start a new game
/// and play; RESUME goes back to play; SETTINGS opens the settings, which
/// remember the screen they were opened from; MAIN MENU goes to the main
/// menu; QUIT leaves; MUSIC: ON switches the music off and MUSIC: OFF on;
/// BACK returns to the screen the settings were opened from.
pub proof fn law_items_do_what_they_say(ui: Ui, keys: Keys, game_over: bool)
    requires
        ui.wf(),
        ui.state != GameState::Playing,
        select_pressed(keys),
        !keys.up,
        !keys.down,
    ensures
        ({
            let label = menu_texts(ui.state, ui.music_enabled)[ui.menu_selected as int];
            let (after, r) = next(ui, keys, true, game_over);
            &&& (label == "START GAME"@ || label == "RESTART"@) ==> after.state == GameState::Playing
                && r.effect == Effect::NewGame
            &&& label == "RESUME"@ ==> after.state == GameState::Playing && r.effect
                == Effect::Nothing && after.menu_selected == ui.menu_selected
            &&& label == "SETTINGS"@ ==> after.state == GameState::Settings && after.previous_state
                == ui.state && after.menu_selected == 0 && r.effect == Effect::Nothing
            &&& label == "MAIN MENU"@ ==> after.state == GameState::Menu && after.menu_selected == 0
                && r.effect == Effect::Nothing
            &&& label == "QUIT"@ ==> r.effect == Effect::Quit && after == ui
            &&& label == "MUSIC: ON"@ ==> !after.music_enabled && r.effect == Effect::MusicOff
                && after.state == GameState::Settings
            &&& label == "MUSIC: OFF"@ ==> after.music_enabled && r.effect == Effect::MusicOn
                && after.state == GameState::Settings
            &&& label == "BACK"@ ==> after.state == ui.previous_state && after.menu_selected == 0
                && after.music_enabled == ui.music_enabled
            &&& r.effect != Effect::Quit ==> r.restart_cooldown
        }),
{
    reveal_strlit("START GAME");
    reveal_strlit("RESTART");
    reveal_strlit("RESUME");
    reveal_strlit("SETTINGS");
    reveal_strlit("MAIN MENU");
    reveal_strlit("QUIT");
    reveal_strlit("MUSIC: ON");
    reveal_strlit("MUSIC: OFF");
    reveal_strlit("BACK");
    let label = menu_texts(ui.state, ui.music_enabled)[ui.menu_selected as int];
    assert(label.len() > 0);
    if label == "START GAME"@ {
        assert(label[0] == 'S' && label[1] == 'T' && label[6] == 'G');
    }
    if label == "MUSIC: OFF"@ {
        assert(label[0] == 'M' && label[1] == 'U');
    }
    if label == "MUSIC: ON"@ {
        assert(label[0] == 'M' && label[1] == 'U');
    }
    if label == "MAIN MENU"@ {
        assert(label[0] == 'M' && label[1] == 'A');
    }
    if label == "QUIT"@ {
        assert(label[0] == 'Q');
    }
    if label == "BACK"@ {
        assert(label[0] == 'B');
    }
}

/// Law: the arrows move the highlight one item up or down, wrapping around
/// the menu's items (three in the main menu and on the game-over screen,
/// four in the pause menu, two in the settings), and change nothing else.
pub proof fn law_arrows_move_highlight(ui: Ui, keys: Keys, game_over: bool)
    requires
        ui.wf(),
        ui.state != GameState::Playing,
        keys.up || keys.down,
    ensures
        ({
            let n: int = match ui.state {
                GameState::Paused => 4,
                GameState::Settings => 2,
                _ => 3,
            };
            let sel = ui.menu_selected as int;
            let (after, r) = next(ui, keys, true, game_over);
            &&& n == menu_texts(ui.state, ui.music_enabled).len()
            &&& after.menu_selected == if keys.up {
                (sel + n - 1) % n
            } else {
                (sel + 1) % n
            }
            &&& after == (Ui { menu_selected: after.menu_selected, ..ui })
            &&& r.effect == Effect::Nothing
            &&& r.restart_cooldown
        }),
{
}

/// Law: during play, escape (cooldown over) pauses with the first pause
/// item highlighted, the end of the game shows the game-over screen with
/// its first item highlighted, and otherwise play goes on unchanged.
pub proof fn law_play_screen(ui: Ui, keys: Keys, can_press: bool, game_over: bool)
    requires
        ui.state == GameState::Playing,
    ensures
        ({
            let (after, r) = next(ui, keys, can_press, game_over);
            &&& game_over ==> after.state == GameState::GameOver && after.menu_selected == 0
            &&& !game_over && keys.escape && can_press ==> after.state == GameState::Paused
                && after.menu_selected == 0
            &&& !game_over && !(keys.escape && can_press) ==> after == ui
            &&& after.music_enabled == ui.music_enabled
            &&& after.previous_state == ui.previous_state
            &&& r.effect == Effect::Nothing
            &&& r.restart_cooldown == (keys.escape && can_press)
        }),
{
}

/// Law: the texts of the screens: the main menu is titled RUST SNAKE with
/// START GAME, SETTINGS, QUIT; the settings are titled SETTINGS with the
/// music switch (MUSIC: ON or MUSIC: OFF) and BACK; the pause menu is titled
/// PAUSED with RESUME, SETTINGS, MAIN MENU, QUIT; the game-over screen is
/// titled GAME OVER with RESTART, MAIN MENU, QUIT; play has neither.
pub proof fn law_screen_texts(music_enabled: bool)
    ensures
        title_text(GameState::Menu) == Some("RUST SNAKE"@),
        menu_texts(GameState::Menu, music_enabled) == seq!["START GAME"@, "SETTINGS"@, "QUIT"@],
        title_text(GameState::Settings) == Some("SETTINGS"@),
        menu_texts(GameState::Settings, music_enabled) == seq![
            if music_enabled {
                "MUSIC: ON"@
            } else {
                "MUSIC: OFF"@
            },
            "BACK"@,
        ],
        title_text(GameState::Paused) == Some("PAUSED"@),
        menu_texts(GameState::Paused, music_enabled) == seq![
            "RESUME"@,
            "SETTINGS"@,
            "MAIN MENU"@,
            "QUIT"@,
        ],
        title_text(GameState::GameOver) == Some("GAME OVER"@),
        menu_texts(GameState::GameOver, music_enabled) == seq![
            "RESTART"@,
            "MAIN MENU"@,
            "QUIT"@,
        ],
        title_text(GameState::Playing) is None,
        menu_texts(GameState::Playing, music_enabled).len() == 0,
{
}

/// Law: on a screen with a menu, keys other than the arrows, Enter and
/// Space change nothing, except Escape in the pause menu, which resumes play.
pub proof fn law_other_keys(ui: Ui, keys: Keys, game_over: bool)
    requires
        ui.wf(),
        ui.state != GameState::Playing,
        !keys.up,
        !keys.down,
        !keys.enter,
        !keys.space,
    ensures
        next(ui, keys, true, game_over) == if ui.state == GameState::Paused && keys.escape {
            (Ui { state: GameState::Playing, ..ui }, Reaction { effect: Effect::Nothing, restart_cooldown: true })
        } else {
            (ui, Reaction { effect: Effect::Nothing, restart_cooldown: false })
        },
{
}

} // verus!
