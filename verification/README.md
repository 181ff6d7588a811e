# rusty_snake

A terminal snake game. The library (`src/`) holds the game's logic with its
contracts, proved by Verus:

- `geometry`: cells, directions and the wrap-around step on the board;
- `snake`: the round's state (`State`): moving, growing, collisions, food
  placement and what a redraw paints;
- `game`: the menu / playing / game-over state machine driven by key presses
  and ticks, and the layout of the text screens;
- `random`: the one call into `rand` (an index drawn below a bound).

`app/main.rs` is the terminal front end (crossterm): it reads keys, keeps the
tick clock and paints what the library hands it.
