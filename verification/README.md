# gridworld

A small grid game. The verified library (`src/`) holds its logic:

- `tile`: the kinds of cell and how terrain noise picks one;
- `grid`: the tile map (`MapTiles`): reading and writing cells, its
  dimension, listing cells and finding the cells of one kind, and where the
  player spawns;
- `input`: how the movement keys and terminal keys turn into steps;
- `camera`: the window of world cells the terminal view shows, and where each
  cell is drawn;
- `player`: the player and the game settings;
- `laws`: properties that relate these functions, proved by Verus.

`app/` is the bevy program around it: noise sampling, world positions and
colours (all floating point), rendering, and terminal input.
