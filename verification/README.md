# life

Conway's Game of Life on a 50 × 100 board whose edges wrap around, with a short
decay trail: a cell that dies counts down from 6 to 0 over the following
generations.

- `src/grid.rs` — the board, the neighbour count, the rules, one generation,
  clicking, clearing and filling cells; the model is a row-major sequence of
  cell states.
- `src/chance.rs` — filling the board at random through `rand`, each cell alive with
  a chance of 33 in 100. The proofs show that every cell ends alive or fully dead;
  the chance itself is shown only by a test on a seeded generator.
- `src/controls.rs` — the game state, the tick delay, the keyboard and the three
  buttons, as functions from state and event to the next state and what to show.
- `src/text.rs` — the status line.
- `src/laws.rs` — properties of the game proved over the model.
- `app/main.rs` — the Bevy program: window, sprites, input, timers; it hands plain
  values to the library and draws what it returns.
