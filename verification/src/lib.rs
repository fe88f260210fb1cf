//! A grid-based snake game core, verified: a player-controlled snake
//! moves on a bounded board, eats decaying food to grow, and dies on
//! walls or its own body. The `snake` module holds the segmented
//! entity itself; the `game` module drives the per-tick state machine
//! of movement, food lifecycle, collisions and restart. Rendering and
//! raw input stay outside: the core takes direction intents and hands
//! back plain state.

pub mod game;
pub mod snake;
