//! Combat resolution core of a top-down action game.
//!
//! The crate advances a small simulated world in discrete ticks: it ages
//! cooldowns, status windows and lifetimes, turns ability activations into
//! attack geometry, detects overlaps between axis-aligned boxes, resolves
//! damage exactly once per victim and drives the timed phases of the boss.
//!
//! All quantities are integers. Lengths and coordinates are counted in
//! thousandths of a world unit, directions in millionths per axis, time in
//! nanoseconds.
//!
//! The modules, from the leaves up:
//!
//! - [`geometry`]: positions, box sizes, the overlap test, directions.
//! - [`timing`]: countdowns.
//! - [`components`]: what an actor can carry, and the counters of a session.
//! - [`world`]: actors, the world that owns them, and its well-formedness.
//! - [`collision`]: detection of overlaps and their classification.
//! - [`combat`]: resolution of the collisions of a tick.
//! - [`player`]: the cooldown gate, the geometry of the abilities, movement.
//! - [`enemy`]: the spawn of enemies and their chase.
//! - [`boss`]: the phase machine of the boss.
//! - [`systems`]: ageing of timers, cleaning up, restart, camera.
//! - [`session`]: spawning by kind, the tick, and what the interface reads.
//! - [`sounds`], [`spawning`], [`map_grid`]: recordings, the spawn timer and
//!   the tiles of the map.
//! - [`laws`]: what holds of every world, proved.

pub mod boss;
pub mod collision;
pub mod combat;
pub mod components;
pub mod enemy;
pub mod events;
pub mod geometry;
pub mod laws;
pub mod map_grid;
pub mod player;
pub mod session;
pub mod sounds;
pub mod spawning;
pub mod systems;
pub mod timing;
pub mod world;
