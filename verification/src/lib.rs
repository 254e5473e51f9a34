//! A snake game's verified core: the framebuffer engine with its bitmap font,
//! the menu state machine, and the score keeping.
use vstd::prelude::*;

pub mod color;
pub mod engine;
pub mod font;
pub mod frame;
pub mod menu;
pub mod score;
pub mod snake;
pub mod ui;

verus! {
} // verus!
