//! Simulation core of a lane-defence game: buffable statistics, combat
//! resolution, the ability catalogue and its purchase / cast / apply
//! pipeline, the wave scheduler and the per-tick vitals loop.
//!
//! All quantities are fixed point: statistics, health and mana are held in
//! thousandths of a unit, game time in milliseconds and positions in
//! thousandths of a pixel.
pub mod constants;
pub mod stats;
pub mod components;
pub mod vitals;
pub mod random;
pub mod combat;
pub mod abilities;
pub mod pipeline;
pub mod effects;
pub mod enemy_factory;
pub mod waves;
pub mod player_factory;
pub mod systems;
pub mod movement;
pub mod battle;
pub mod animations;
