//! Frame-level scenarios: fire edge-triggering, projectile lifecycle, the
//! clamp invariant under arbitrary steering, and the end-to-end run near the
//! bottom of the play-field.

use invaders_core::components::Role;
use invaders_core::config::Config;
use invaders_core::config::WinSize;
use invaders_core::input::KeyInput;
use invaders_core::world::World;

// Same reference setup as the unit tests: 900 x 1200 units at 60 subunits
// per unit, half-extent 46 units, step 500 subunits per frame.
fn test_config() -> Config {
    Config::new(WinSize { w: 54000, h: 72000 }, 500, 2760, 2760, 2, 300).unwrap()
}

fn started_world() -> World {
    let mut w = World::new(test_config());
    assert!(w.spawn_player());
    w
}

fn idle(fire: bool) -> KeyInput {
    KeyInput { left: false, right: false, up: false, down: false, fire }
}

fn projectile_count(w: &World) -> usize {
    w.entities.iter().filter(|e| e.role == Role::Projectile).count()
}

#[test]
fn player_spawns_once() {
    let mut w = started_world();
    assert_eq!(w.entities.len(), 1);
    assert_eq!(w.entities[0].pos.x, 0);
    assert_eq!(w.entities[0].pos.y, -32940);
    // A second spawn is skipped: exactly one player exists.
    assert!(!w.spawn_player());
    assert_eq!(w.entities.len(), 1);
}

#[test]
fn fire_edge_triggering() {
    let mut w = started_world();
    // Key levels over six frames: released, then held three frames, then
    // released, then pressed again.
    let levels = [false, true, true, true, false, true];
    let mut counts = Vec::new();
    for level in levels {
        w.frame(idle(level));
        counts.push(projectile_count(&w));
    }
    // Exactly two spawns: on the first press edge and on the second.
    assert_eq!(counts, vec![0, 1, 1, 1, 1, 2]);
}

#[test]
fn fire_without_player_spawns_nothing() {
    let mut w = World::new(test_config());
    w.frame(idle(true));
    assert_eq!(w.entities.len(), 0);
}

#[test]
fn projectile_starts_at_player_nose() {
    let mut w = started_world();
    w.frame(idle(true));
    let proj = w.entities.iter().find(|e| e.role == Role::Projectile).unwrap();
    let player = w.entities.iter().find(|e| e.role == Role::Player).unwrap();
    // The projectile sits half the player's height above the player's center.
    assert_eq!(proj.pos.x, player.pos.x);
    assert_eq!(proj.pos.y, player.pos.y + 2760);
    assert_eq!((proj.vel.x, proj.vel.y), (0, 2));
    assert!(proj.auto_despawn);
}

#[test]
fn projectile_despawns_after_leaving_top() {
    let mut w = started_world();
    w.frame(idle(true));
    assert_eq!(projectile_count(&w), 1);
    // The projectile rises 1000 subunits per frame from -30180 and is
    // removed on the first frame that carries it above 36000.
    let mut frames = 0;
    while projectile_count(&w) == 1 {
        w.frame(idle(false));
        frames += 1;
        assert!(frames < 100, "projectile never despawned");
    }
    assert_eq!(w.entities.len(), 1);
    // It was removed on the frame it crossed the top, not earlier: it needed
    // to climb from -30180 to above 36000 at 1000 per frame.
    assert_eq!(frames, 67);
}

#[test]
fn clamp_invariant_under_arbitrary_steering() {
    let mut w = started_world();
    // A deterministic but irregular steering sequence, mostly pushing into
    // the walls.
    for i in 0..400u32 {
        let k = KeyInput {
            left: i % 3 == 0,
            right: i % 7 == 1,
            up: i % 2 == 0,
            down: i % 11 == 3,
            fire: i % 5 == 2,
        };
        w.frame(k);
        let player = w.entities.iter().find(|e| e.role == Role::Player).unwrap();
        assert!(player.pos.x >= -24240 && player.pos.x <= 24240);
        assert!(player.pos.y >= -33240 && player.pos.y <= 33240);
    }
}

#[test]
fn wall_contact_does_not_zero_velocity() {
    let mut w = started_world();
    // Push left until the ship sits on the left wall.
    for _ in 0..120 {
        w.frame(KeyInput { left: true, right: false, up: false, down: false, fire: false });
    }
    assert_eq!(w.entities[0].pos.x, -24240);
    // One frame to the right moves immediately: the clamp is a hard clip,
    // not a velocity change.
    w.frame(KeyInput { left: false, right: true, up: false, down: false, fire: false });
    assert_eq!(w.entities[0].pos.x, -24240 + 500);
}

#[test]
fn end_to_end_upward_run() {
    // The player starts 5 units above the bottom clamp bound, at y = -549
    // units (-32940 subunits), and steers straight up at 500 units/s.
    let mut w = started_world();
    let up = KeyInput { left: false, right: false, up: true, down: false, fire: false };
    for _ in 0..60 {
        w.frame(up);
    }
    // One second in, the accumulation is exact and unclamped:
    // -32940 + 60 * 500 = -2940 subunits, i.e. -49 units.
    assert_eq!(w.entities[0].pos.x, 0);
    assert_eq!(w.entities[0].pos.y, -2940);
    // Long before 140 frames the ship reaches the top clamp bound at
    // 554 units (33240 subunits) and stays there.
    for _ in 60..140 {
        w.frame(up);
    }
    assert_eq!(w.entities[0].pos.y, 33240);
}

#[test]
fn velocity_is_overwritten_every_frame() {
    let mut w = started_world();
    w.frame(KeyInput { left: true, right: false, up: false, down: false, fire: false });
    assert_eq!((w.entities[0].vel.x, w.entities[0].vel.y), (-1, 0));
    w.frame(idle(false));
    assert_eq!((w.entities[0].vel.x, w.entities[0].vel.y), (0, 0));
}
