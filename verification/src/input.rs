//! The per-frame input snapshot and the mapping from key state to the
//! player's steering velocity.

use vstd::prelude::*;
use crate::components::Velocity;

verus! {

/// The pressed/released state of the relevant keys on one frame.
#[derive(Clone, Copy, Debug, PartialEq, Eq, Structural)]
pub struct KeyInput {
    /// Steer left (negative x).
    pub left: bool,
    /// Steer right (positive x).
    pub right: bool,
    /// Steer up (positive y).
    pub up: bool,
    /// Steer down (negative y).
    pub down: bool,
    /// The fire key's level this frame; a projectile spawns only on the
    /// released-to-pressed edge.
    pub fire: bool,
}

/// Resolves one axis of steering: the positive key wins, else the negative
/// key, else the axis is centered.
pub open spec fn steer_axis(pos_key: bool, neg_key: bool) -> int {
    if pos_key {
        1
    } else if neg_key {
        -1
    } else {
        0
    }
}

/// The steering x component for the given keys.
pub open spec fn steer_x(keys: KeyInput) -> int {
    steer_axis(keys.right, keys.left)
}

/// The steering y component for the given keys.
pub open spec fn steer_y(keys: KeyInput) -> int {
    steer_axis(keys.up, keys.down)
}

/// Maps the directional keys to the player's steering velocity: each axis
/// resolves independently, positive key first, so every component is one of
/// `-1`, `0` or `1` and diagonals run at full speed on both axes.
pub fn steer(keys: KeyInput) -> (v: Velocity)
    ensures
        v.x == steer_x(keys),
        v.y == steer_y(keys),
        -1 <= v.x <= 1,
        -1 <= v.y <= 1,
{
    let x: i64 = if keys.right {
        1
    } else if keys.left {
        -1
    } else {
        0
    };
    let y: i64 = if keys.up {
        1
    } else if keys.down {
        -1
    } else {
        0
    };
    Velocity { x, y }
}

} // verus!
