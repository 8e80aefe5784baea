//! The components carried by every simulated entity: position, velocity, a
//! role tag, and the auto-despawn movement policy, together with the entity's
//! mathematical model and its per-entity invariant.

use vstd::prelude::*;
use crate::config::Config;

verus! {

/// A 2D position, in subunits.
#[derive(Clone, Copy, Debug, PartialEq, Eq, Structural)]
pub struct Position {
    pub x: i64,
    pub y: i64,
}

/// A 2D velocity, in steering units: the player uses components in
/// `{-1, 0, 1}`; a projectile uses `(0, laser_vy)`.
#[derive(Clone, Copy, Debug, PartialEq, Eq, Structural)]
pub struct Velocity {
    pub x: i64,
    pub y: i64,
}

/// What an entity is: the single player ship, or one of its projectiles.
#[derive(Clone, Copy, Debug, PartialEq, Eq, Structural)]
pub enum Role {
    Player,
    Projectile,
}

/// One simulated entity: a stable identifier and its component bundle.
#[derive(Clone, Copy, Debug, PartialEq, Eq, Structural)]
pub struct Entity {
    /// Stable handle, unique within the store that owns the entity.
    pub id: u64,
    pub pos: Position,
    pub vel: Velocity,
    pub role: Role,
    /// Movement policy: whether the lifetime pass may remove this entity once
    /// it exits the top of the play-field.
    pub auto_despawn: bool,
}

/// The mathematical model of an entity, over unbounded integers.
pub ghost struct EntityModel {
    pub id: int,
    pub px: int,
    pub py: int,
    pub vx: int,
    pub vy: int,
    pub role: Role,
    pub auto_despawn: bool,
}

impl View for Entity {
    type V = EntityModel;

    open spec fn view(&self) -> EntityModel {
        EntityModel {
            id: self.id as int,
            px: self.pos.x as int,
            py: self.pos.y as int,
            vx: self.vel.x as int,
            vy: self.vel.y as int,
            role: self.role,
            auto_despawn: self.auto_despawn,
        }
    }
}

impl EntityModel {
    /// The per-entity invariant, holding between frames.
    ///
    /// The player steers with unit components, is never auto-despawned, and
    /// sits inside the clamp bounds. A projectile travels straight up at the
    /// configured velocity, is always auto-despawned, keeps the x range it was
    /// spawned with, and sits no higher than the despawn line.
    pub open spec fn inv(self, cfg: Config) -> bool {
        match self.role {
            Role::Player => {
                &&& !self.auto_despawn
                &&& -1 <= self.vx <= 1
                &&& -1 <= self.vy <= 1
                &&& cfg.min_x() <= self.px <= cfg.max_x()
                &&& cfg.min_y() <= self.py <= cfg.max_y()
            },
            Role::Projectile => {
                &&& self.auto_despawn
                &&& self.vx == 0
                &&& self.vy == cfg.laser_vy
                &&& cfg.min_x() <= self.px <= cfg.max_x()
                &&& -cfg.half_h <= self.py <= cfg.despawn_y()
            },
        }
    }

    /// Whether this entity is the player.
    pub open spec fn is_player(self) -> bool {
        self.role is Player
    }
}

} // verus!
