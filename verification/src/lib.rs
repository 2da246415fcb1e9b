//! Simulation core of a tick-driven multiplayer survival arena: the world
//! state, the per-tick update pipeline (spawning, enemy AI, projectile
//! physics, combat resolution, leveling, scoreboard), and the session-facing
//! intent handling. All quantities are fixed-point integers: positions in
//! milli-units, health and damage in hundredths of a point, times in
//! milliseconds.

pub mod config;
pub mod enemy;
pub mod external;
pub mod math;
pub mod messages;
pub mod player;
pub mod position;
pub mod projectile;
pub mod score;
pub mod upgrades;
pub mod world;
