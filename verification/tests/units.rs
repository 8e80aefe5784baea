//! Unit-level checks: configuration validation, the input mapping table, one
//! integrator step, clamp idempotence, and the lifetime pass.

use invaders_core::components::Entity;
use invaders_core::components::Position;
use invaders_core::components::Role;
use invaders_core::components::Velocity;
use invaders_core::config::Config;
use invaders_core::config::WinSize;
use invaders_core::input::steer;
use invaders_core::input::KeyInput;
use invaders_core::world::integrate_entity;
use invaders_core::world::World;

// The reference setup: a 900 x 1200 unit window at 60 subunits per unit, a
// ship of half-extent 46 units, 500 units/s at a 1/60 s timestep (so a step
// of 500 subunits per frame), and a 5 unit spawn margin.
fn test_config() -> Config {
    Config::new(WinSize { w: 54000, h: 72000 }, 500, 2760, 2760, 2, 300).unwrap()
}

fn keys(left: bool, right: bool, up: bool, down: bool) -> KeyInput {
    KeyInput { left, right, up, down, fire: false }
}

#[test]
fn config_derives_half_extents() {
    let c = test_config();
    assert_eq!(c.half_w, 27000);
    assert_eq!(c.half_h, 36000);
    assert_eq!(c.step, 500);
    assert_eq!(c.laser_vy, 2);
}

#[test]
fn config_rejects_nonpositive_step() {
    assert!(Config::new(WinSize { w: 54000, h: 72000 }, 0, 2760, 2760, 2, 300).is_none());
    assert!(Config::new(WinSize { w: 54000, h: 72000 }, -5, 2760, 2760, 2, 300).is_none());
}

#[test]
fn config_rejects_ship_larger_than_field() {
    // Half-extent beyond the half-width would invert the clamp bounds.
    assert!(Config::new(WinSize { w: 54000, h: 72000 }, 500, 27001, 2760, 2, 300).is_none());
    assert!(Config::new(WinSize { w: 54000, h: 72000 }, 500, 2760, 36001, 2, 300).is_none());
}

#[test]
fn config_rejects_empty_window() {
    assert!(Config::new(WinSize { w: 0, h: 72000 }, 500, 2760, 2760, 2, 300).is_none());
    assert!(Config::new(WinSize { w: 54000, h: -1 }, 500, 2760, 2760, 2, 300).is_none());
}

#[test]
fn config_rejects_nonpositive_laser_velocity() {
    assert!(Config::new(WinSize { w: 54000, h: 72000 }, 500, 2760, 2760, 0, 300).is_none());
}

#[test]
fn input_mapping_table() {
    // Left only.
    assert_eq!(steer(keys(true, false, false, false)).x, -1);
    // Right only.
    assert_eq!(steer(keys(false, true, false, false)).x, 1);
    // Neither key: centered.
    assert_eq!(steer(keys(false, false, false, false)).x, 0);
    // Both keys: the positive key wins by the fixed per-axis priority.
    assert_eq!(steer(keys(true, true, false, false)).x, 1);
    // The y axis resolves the same way, independently.
    assert_eq!(steer(keys(false, false, true, false)).y, 1);
    assert_eq!(steer(keys(false, false, false, true)).y, -1);
    assert_eq!(steer(keys(false, false, false, false)).y, 0);
    assert_eq!(steer(keys(false, false, true, true)).y, 1);
    // Diagonals are full speed on both axes.
    let v = steer(keys(true, false, true, false));
    assert_eq!((v.x, v.y), (-1, 1));
}

#[test]
fn integration_is_additive() {
    let cfg = test_config();
    let mut e = Entity {
        id: 7,
        pos: Position { x: 100, y: 200 },
        vel: Velocity { x: 1, y: -1 },
        role: Role::Player,
        auto_despawn: false,
    };
    integrate_entity(&mut e, &cfg);
    assert_eq!(e.pos.x, 100 + 1 * 500);
    assert_eq!(e.pos.y, 200 - 1 * 500);
    assert_eq!(e.vel, Velocity { x: 1, y: -1 });
    let mut p = Entity {
        id: 8,
        pos: Position { x: -40, y: 1000 },
        vel: Velocity { x: 0, y: 2 },
        role: Role::Projectile,
        auto_despawn: true,
    };
    integrate_entity(&mut p, &cfg);
    assert_eq!(p.pos.x, -40);
    assert_eq!(p.pos.y, 1000 + 2 * 500);
}

#[test]
fn clamp_is_idempotent() {
    let cfg = test_config();
    let mut w = World::new(cfg);
    w.entities.push(Entity {
        id: 0,
        pos: Position { x: 999_999, y: -999_999 },
        vel: Velocity { x: 0, y: 0 },
        role: Role::Player,
        auto_despawn: false,
    });
    w.next_id = 1;
    w.clamp_player();
    let once = w.entities[0].pos;
    assert_eq!(once, Position { x: 24240, y: -33240 });
    w.clamp_player();
    assert_eq!(w.entities[0].pos, once);
}

#[test]
fn clamp_leaves_interior_positions_alone() {
    let cfg = test_config();
    let mut w = World::new(cfg);
    w.entities.push(Entity {
        id: 0,
        pos: Position { x: -123, y: 456 },
        vel: Velocity { x: 0, y: 0 },
        role: Role::Player,
        auto_despawn: false,
    });
    w.next_id = 1;
    w.clamp_player();
    assert_eq!(w.entities[0].pos, Position { x: -123, y: 456 });
}

#[test]
fn lifetime_removes_only_above_top() {
    let cfg = test_config();
    let mut w = World::new(cfg);
    // Just above the top: removed. Exactly on it or below: kept. Far
    // left/low: kept (only the top boundary despawns).
    for (id, y) in [(0u64, 36001i64), (1, 35999), (2, -999_999), (4, 36000)] {
        w.entities.push(Entity {
            id,
            pos: Position { x: 0, y },
            vel: Velocity { x: 0, y: 2 },
            role: Role::Projectile,
            auto_despawn: true,
        });
    }
    // A player above the top is not auto-despawned.
    w.entities.push(Entity {
        id: 3,
        pos: Position { x: 0, y: 40000 },
        vel: Velocity { x: 0, y: 0 },
        role: Role::Player,
        auto_despawn: false,
    });
    w.next_id = 5;
    w.lifetime_sweep();
    let ids: Vec<u64> = w.entities.iter().map(|e| e.id).collect();
    assert_eq!(ids, vec![1, 2, 4, 3]);
}
