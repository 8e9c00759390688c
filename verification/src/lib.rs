//! Game logic of a small grid dungeon crawler: rooms, the player, monsters,
//! pickups, combat and the message log. Rendering and input live outside.

pub mod dice;
pub mod text;
pub mod vibe;
pub mod messages;
pub mod game;
pub mod room;
pub mod monsters;
pub mod combat;
pub mod turn;
pub mod laws;
