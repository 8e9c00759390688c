# dungeon_dj

The rules of a small grid dungeon crawler, proved against their
specifications: room generation, the player's moves, pickups, fights, the
monsters' turns and the message log. `app/` holds the window, input, animation and drawing, built on
macroquad.

- `src/game.rs` — the game state, its model as mathematical values, the
  invariant between turns, and the basic queries.
- `src/room.rs` — room generation and the search for an empty cell.
- `src/monsters.rs` — how each monster picks its step, and the monsters' turn.
- `src/combat.rs` — fights, deaths and the removal of dead monsters.
- `src/turn.rs` — the player's move, restarts, and what the screen takes.
- `src/laws.rs` — properties that span several operations.
- `src/messages.rs`, `src/text.rs`, `src/vibe.rs` — log texts, decimal
  notation, room themes.
- `src/dice.rs` — the one call into macroquad's random number generator.
