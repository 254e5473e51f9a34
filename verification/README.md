# rust_snake

A snake game whose rules and drawing are a library verified with Verus.

- `src/` is the verified library:
  - `frame.rs`: the model of a framebuffer (`Frame`) and the lemmas about
    its row-after-row layout;
  - `engine.rs`: the framebuffer `Engine`: clearing, pixels, rectangles and
    text in the 3x5 bitmap font;
  - `font.rs`: the font's glyphs and what a glyph or a text covers;
  - `color.rs`: colours split into channels and put back together;
  - `ui.rs`: the background grid, titles, menus and whole menu screens;
  - `menu.rs`: the screens of the game and how the keys move between them;
  - `score.rs`: points, the best score, and its saved text form;
  - `snake.rs`: how the body grows when the snake eats.
- `app/` is the program around it: the window (minifb), sound (rodio), the
  random food (rand), the high score file, and the snake's movement and
  collisions, which are computed in floating point.
- `tests/` runs the library on concrete values.
