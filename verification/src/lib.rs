//! Core simulation for a small 2D arcade shooter.
//!
//! A player-controlled ship moves inside a bounded play-field, fires
//! projectiles upward, and projectiles are removed once they leave the top of
//! the screen. This crate holds the per-frame update loop: translating key
//! state into a steering velocity, advancing every entity by its velocity,
//! clamping the player to the play-field, despawning projectiles that exit the
//! top, and spawning a projectile on each fire-key press edge.
//!
//! All coordinates are integers in "subunits": a fixed-point representation of
//! the display's unit system chosen by the host (for a 60 Hz host with a speed
//! of 500 units per second, one display unit is 60 subunits and the per-frame
//! step is 500 subunits). Velocity components are integers in the discrete
//! steering scale: the player steers with components in `{-1, 0, 1}`, and a
//! projectile rises with a fixed positive component in the same scale. This
//! keeps every frame update exact, so the contracts below state the new
//! positions to the subunit.

pub mod components;
pub mod config;
pub mod input;
pub mod laws;
pub mod model;
pub mod world;
