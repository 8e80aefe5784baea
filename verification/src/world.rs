//! The executable entity store and the per-frame systems: player spawn, the
//! input mapper, the kinematic integrator, the boundary clamp, the lifetime
//! policy and the fire controller, each proved equal to its model.

use vstd::prelude::*;
use crate::components::Entity;
use crate::components::EntityModel;
use crate::components::Position;
use crate::components::Role;
use crate::components::Velocity;
use crate::config::Config;
use crate::input::KeyInput;
use crate::input::steer;
use crate::input::steer_x;
use crate::input::steer_y;
use crate::model::WorldModel;
use crate::model::apply_input;
use crate::model::clamp_all_model;
use crate::model::clamp_entity_model;
use crate::model::entity_fits;
use crate::model::find_player_from;
use crate::model::find_player_idx;
use crate::model::fire_edge;
use crate::model::fire_phase;
use crate::model::frame_spec;
use crate::model::has_player;
use crate::model::initial_player;
use crate::model::input_phase;
use crate::model::integrate_all_model;
use crate::model::integrate_entity_model;
use crate::model::keeps;
use crate::model::lemma_find_player_has;
use crate::model::lemma_fire_phase_wf;
use crate::model::lemma_frame_wf;
use crate::model::lemma_input_phase_wf;
use crate::model::lemma_move_phase_wf;
use crate::model::lemma_mul_bound;
use crate::model::move_phase;
use crate::model::spawned_projectile;
use crate::model::steer_entity;
use crate::model::sweep;
use crate::config::MAX_LASER_VELOCITY;
use crate::config::MAX_STEP;
use crate::model::POS_LIMIT;

verus! {

/// Advances one entity's position by its velocity times the per-frame step,
/// exactly: each axis gains `velocity * step` subunits, and nothing else of
/// the entity changes.
pub fn integrate_entity(e: &mut Entity, cfg: &Config)
    requires
        cfg.wf(),
        entity_fits(old(e)@),
    ensures
        final(e)@ == integrate_entity_model(*cfg, old(e)@),
        final(e).pos.x == old(e).pos.x + old(e).vel.x * cfg.step,
        final(e).pos.y == old(e).pos.y + old(e).vel.y * cfg.step,
        final(e).vel == old(e).vel,
        final(e).id == old(e).id,
        final(e).role == old(e).role,
        final(e).auto_despawn == old(e).auto_despawn,
{
    proof {
        lemma_mul_bound(
            e.vel.x as int,
            MAX_LASER_VELOCITY as int,
            cfg.step as int,
            MAX_STEP as int,
        );
        lemma_mul_bound(
            e.vel.y as int,
            MAX_LASER_VELOCITY as int,
            cfg.step as int,
            MAX_STEP as int,
        );
    }
    e.pos.x = e.pos.x + e.vel.x * cfg.step;
    e.pos.y = e.pos.y + e.vel.y * cfg.step;
}

/// The world: the immutable configuration, the entity store, the next fresh
/// entity handle, and the fire key's level on the previous frame.
pub struct World {
    pub cfg: Config,
    pub entities: Vec<Entity>,
    pub next_id: u64,
    pub fire_prev: bool,
}

impl View for World {
    type V = WorldModel;

    open spec fn view(&self) -> WorldModel {
        WorldModel {
            cfg: self.cfg,
            entities: self.entities@.map_values(|e: Entity| e@),
            next_id: self.next_id as int,
            fire_prev: self.fire_prev,
        }
    }
}

impl World {
    /// The world invariant: see [`WorldModel::wf`].
    pub open spec fn wf(self) -> bool {
        self@.wf()
    }

    /// An empty world with the given configuration: no entities, handles
    /// starting at zero, fire key recorded as released.
    pub fn new(cfg: Config) -> (w: World)
        requires
            cfg.wf(),
        ensures
            w@.cfg == cfg,
            w@.entities == Seq::<EntityModel>::empty(),
            w@.next_id == 0,
            w@.fire_prev == false,
            w.wf(),
    {
        let w = World { cfg, entities: Vec::new(), next_id: 0, fire_prev: false };
        proof {
            assert(w@.entities =~= Seq::<EntityModel>::empty());
        }
        w
    }

    /// The index of the player entity in the store, if one exists.
    pub fn find_player(&self) -> (r: Option<usize>)
        ensures
            match r {
                Some(i) => i < self.entities@.len() && find_player_idx(self@.entities) == Some(
                    i as int,
                ),
                None => find_player_idx(self@.entities).is_none(),
            },
    {
        let ghost s = self@.entities;
        let n = self.entities.len();
        let mut i: usize = 0;
        while i < n
            invariant
                i <= n,
                n == self.entities@.len(),
                s == self@.entities,
                find_player_idx(s) == find_player_from(s, i as int),
            decreases n - i,
        {
            let is_player = match self.entities[i].role {
                Role::Player => true,
                Role::Projectile => false,
            };
            proof {
                assert(s[i as int] == self.entities@[i as int]@);
            }
            if is_player {
                return Some(i);
            }
            i = i + 1;
        }
        None
    }

    /// Spawns the single player ship, horizontally centered, the spawn
    /// margin above the bottom clamp bound, at rest; skipped when a player
    /// already exists. Returns whether a player was spawned, so a spawn
    /// happens exactly when the store had no player.
    pub fn spawn_player(&mut self) -> (spawned: bool)
        requires
            old(self).wf(),
            old(self)@.next_id < u64::MAX,
        ensures
            spawned == !has_player(old(self)@.entities),
            spawned ==> final(self)@ == (WorldModel {
                entities: old(self)@.entities.push(
                    initial_player(old(self)@.cfg, old(self)@.next_id),
                ),
                next_id: old(self)@.next_id + 1,
                ..old(self)@
            }),
            !spawned ==> final(self)@ == old(self)@,
            final(self).wf(),
            has_player(final(self)@.entities),
    {
        let ghost w0 = self@;
        let found = self.find_player();
        proof {
            lemma_find_player_has(w0.entities);
        }
        match found {
            Some(i) => {
                proof {
                    assert(w0.entities[find_player_idx(w0.entities).unwrap()].is_player());
                }
                false
            },
            None => {
                let y: i64 = -self.cfg.half_h + self.cfg.half_py + self.cfg.spawn_margin;
                let e = Entity {
                    id: self.next_id,
                    pos: Position { x: 0, y },
                    vel: Velocity { x: 0, y: 0 },
                    role: Role::Player,
                    auto_despawn: false,
                };
                self.entities.push(e);
                self.next_id = self.next_id + 1;
                proof {
                    let p = initial_player(w0.cfg, w0.next_id);
                    assert(e@ == p);
                    assert(self@.entities =~= w0.entities.push(p));
                    let s5 = self@.entities;
                    assert(p.inv(w0.cfg));
                    assert forall|j: int| 0 <= j < s5.len() implies (#[trigger] s5[j]).inv(
                        w0.cfg,
                    ) by {
                        if j < w0.entities.len() {
                            assert(s5[j] == w0.entities[j]);
                        } else {
                            assert(s5[j] == p);
                        }
                    };
                    assert(s5[w0.entities.len() as int].is_player());
                }
                true
            },
        }
    }

    /// The input mapper: overwrites the player's velocity, every frame and
    /// unconditionally, with the steering derived from the directional keys;
    /// every other entity, and a store with no player, is untouched.
    pub fn player_keyboard_event(&mut self, keys: KeyInput)
        requires
            old(self).wf(),
        ensures
            final(self)@ == input_phase(old(self)@, keys),
            final(self).wf(),
    {
        let ghost w0 = self@;
        let v = steer(keys);
        let n = self.entities.len();
        let mut i: usize = 0;
        while i < n
            invariant
                i <= n,
                n == self.entities@.len(),
                self.cfg == old(self).cfg,
                self.next_id == old(self).next_id,
                self.fire_prev == old(self).fire_prev,
                v.x == steer_x(keys),
                v.y == steer_y(keys),
                forall|j: int|
                    0 <= j < i ==> (#[trigger] self.entities@[j])@ == steer_entity(
                        w0.entities[j],
                        keys,
                    ),
                forall|j: int|
                    i <= j < n ==> (#[trigger] self.entities@[j])@ == w0.entities[j],
            decreases n - i,
        {
            let e = self.entities[i];
            match e.role {
                Role::Player => {
                    let e2 = Entity { vel: v, ..e };
                    self.entities.set(i, e2);
                },
                Role::Projectile => {},
            }
            i = i + 1;
        }
        proof {
            assert(self@.entities =~= apply_input(w0.entities, keys));
            assert(self@ == input_phase(w0, keys));
            lemma_input_phase_wf(w0, keys);
        }
    }

    /// The kinematic integrator: advances every entity's position by its
    /// velocity times the per-frame step, before any role-specific logic.
    pub fn integrate_all(&mut self)
        requires
            old(self).wf(),
        ensures
            final(self)@ == (WorldModel {
                entities: integrate_all_model(old(self)@.cfg, old(self)@.entities),
                ..old(self)@
            }),
    {
        let ghost w0 = self@;
        let n = self.entities.len();
        let mut i: usize = 0;
        while i < n
            invariant
                i <= n,
                n == self.entities@.len(),
                self.cfg == old(self).cfg,
                self.next_id == old(self).next_id,
                self.fire_prev == old(self).fire_prev,
                self.cfg.wf(),
                w0.cfg == self.cfg,
                forall|j: int|
                    0 <= j < i ==> (#[trigger] self.entities@[j])@ == integrate_entity_model(
                        w0.cfg,
                        w0.entities[j],
                    ),
                forall|j: int|
                    i <= j < n ==> (#[trigger] self.entities@[j])@ == w0.entities[j],
                forall|j: int|
                    i <= j < n ==> (#[trigger] w0.entities[j]).inv(w0.cfg),
            decreases n - i,
        {
            let mut e = self.entities[i];
            proof {
                assert(e@ == w0.entities[i as int]);
                assert(e@.inv(w0.cfg));
                assert(entity_fits(e@));
            }
            integrate_entity(&mut e, &self.cfg);
            self.entities.set(i, e);
            i = i + 1;
        }
        proof {
            assert(self@.entities =~= integrate_all_model(w0.cfg, w0.entities));
            assert(self@ == (WorldModel {
                entities: integrate_all_model(w0.cfg, w0.entities),
                ..w0
            }));
        }
    }

    /// The boundary clamp: after integration, clips the player's position
    /// into the play-field rectangle shrunk by the player's half-extent. A
    /// hard clip: velocity is untouched, and no other entity is affected.
    pub fn clamp_player(&mut self)
        requires
            old(self)@.cfg.wf(),
        ensures
            final(self)@ == (WorldModel {
                entities: clamp_all_model(old(self)@.cfg, old(self)@.entities),
                ..old(self)@
            }),
    {
        let ghost w0 = self@;
        let min_x: i64 = -self.cfg.half_w + self.cfg.half_px;
        let max_x: i64 = self.cfg.half_w - self.cfg.half_px;
        let min_y: i64 = -self.cfg.half_h + self.cfg.half_py;
        let max_y: i64 = self.cfg.half_h - self.cfg.half_py;
        let n = self.entities.len();
        let mut i: usize = 0;
        while i < n
            invariant
                i <= n,
                n == self.entities@.len(),
                self.cfg == old(self).cfg,
                self.next_id == old(self).next_id,
                self.fire_prev == old(self).fire_prev,
                min_x == w0.cfg.min_x(),
                max_x == w0.cfg.max_x(),
                min_y == w0.cfg.min_y(),
                max_y == w0.cfg.max_y(),
                forall|j: int|
                    0 <= j < i ==> (#[trigger] self.entities@[j])@ == clamp_entity_model(
                        w0.cfg,
                        w0.entities[j],
                    ),
                forall|j: int|
                    i <= j < n ==> (#[trigger] self.entities@[j])@ == w0.entities[j],
            decreases n - i,
        {
            let e = self.entities[i];
            match e.role {
                Role::Player => {
                    let mut x = e.pos.x;
                    let mut y = e.pos.y;
                    if x < min_x {
                        x = min_x;
                    } else if x > max_x {
                        x = max_x;
                    }
                    if y < min_y {
                        y = min_y;
                    } else if y > max_y {
                        y = max_y;
                    }
                    let e2 = Entity { pos: Position { x, y }, ..e };
                    self.entities.set(i, e2);
                    proof {
                        assert(e2@ == clamp_entity_model(w0.cfg, w0.entities[i as int]));
                    }
                },
                Role::Projectile => {},
            }
            i = i + 1;
        }
        proof {
            assert(self@.entities =~= clamp_all_model(w0.cfg, w0.entities));
            assert(self@ == (WorldModel {
                entities: clamp_all_model(w0.cfg, w0.entities),
                ..w0
            }));
        }
    }

    /// The lifetime policy: removes every auto-despawning entity whose
    /// position has crossed the top of the play-field, and nothing else;
    /// entities are never removed for exiting left, right or bottom.
    pub fn lifetime_sweep(&mut self)
        ensures
            final(self)@ == (WorldModel {
                entities: sweep(old(self)@.cfg, old(self)@.entities),
                ..old(self)@
            }),
    {
        let ghost w0 = self@;
        let n = self.entities.len();
        let mut kept: Vec<Entity> = Vec::new();
        let mut i: usize = 0;
        while i < n
            invariant
                i <= n,
                n == self.entities@.len(),
                self@ == w0,
                kept@.map_values(|e: Entity| e@) == sweep(
                    w0.cfg,
                    w0.entities.subrange(0, i as int),
                ),
            decreases n - i,
        {
            let e = self.entities[i];
            let stays = !(e.auto_despawn && e.pos.y > self.cfg.half_h);
            proof {
                let prefix = w0.entities.subrange(0, i as int);
                let prefix2 = w0.entities.subrange(0, i + 1 as int);
                assert(prefix2.drop_last() =~= prefix);
                assert(prefix2.last() == w0.entities[i as int]);
                assert(e@ == w0.entities[i as int]);
                assert(stays == keeps(w0.cfg, e@));
            }
            if stays {
                kept.push(e);
                proof {
                    assert(kept@.map_values(|e2: Entity| e2@) =~= sweep(
                        w0.cfg,
                        w0.entities.subrange(0, i as int),
                    ).push(e@));
                }
            }
            i = i + 1;
        }
        proof {
            assert(w0.entities.subrange(0, n as int) =~= w0.entities);
        }
        self.entities = kept;
        proof {
            assert(self@ == (WorldModel { entities: sweep(w0.cfg, w0.entities), ..w0 }));
        }
    }

    /// The whole movement pass, in order: integrate every entity, clamp the
    /// player, remove projectiles that left the top of the play-field.
    pub fn movable_step(&mut self)
        requires
            old(self).wf(),
        ensures
            final(self)@ == move_phase(old(self)@),
            final(self).wf(),
    {
        let ghost w0 = self@;
        self.integrate_all();
        self.clamp_player();
        self.lifetime_sweep();
        proof {
            lemma_move_phase_wf(w0);
        }
    }

    /// The fire controller: on the frame where the fire key goes from
    /// released to pressed, and when a player exists, spawns one projectile
    /// at the player's nose with the configured upward velocity; holding the
    /// key spawns nothing further. Always records the key's level for the
    /// next frame's edge detection.
    pub fn player_fire(&mut self, fire: bool)
        requires
            old(self).wf(),
            old(self)@.next_id < u64::MAX,
        ensures
            final(self)@ == fire_phase(old(self)@, fire),
            final(self).wf(),
    {
        let ghost w0 = self@;
        let edge = fire && !self.fire_prev;
        self.fire_prev = fire;
        proof {
            assert(edge == fire_edge(w0.fire_prev, fire));
        }
        if edge {
            let found = self.find_player();
            proof {
                lemma_find_player_has(w0.entities);
            }
            match found {
                Some(i) => {
                    let p = self.entities[i];
                    proof {
                        assert(p@ == w0.entities[i as int]);
                        assert(p@.is_player());
                        assert(p@.inv(w0.cfg));
                    }
                    let proj = Entity {
                        id: self.next_id,
                        pos: Position { x: p.pos.x, y: p.pos.y + self.cfg.half_py },
                        vel: Velocity { x: 0, y: self.cfg.laser_vy },
                        role: Role::Projectile,
                        auto_despawn: true,
                    };
                    self.entities.push(proj);
                    self.next_id = self.next_id + 1;
                    proof {
                        assert(proj@ == spawned_projectile(
                            w0.cfg,
                            w0.entities[find_player_idx(w0.entities).unwrap()],
                            w0.next_id,
                        ));
                        assert(self@.entities =~= w0.entities.push(proj@));
                        assert(self@ == fire_phase(w0, fire));
                        lemma_fire_phase_wf(w0, fire);
                    }
                },
                None => {
                    proof {
                        assert(self@ == fire_phase(w0, fire));
                        lemma_fire_phase_wf(w0, fire);
                    }
                },
            }
        } else {
            proof {
                assert(self@ == fire_phase(w0, fire));
                lemma_fire_phase_wf(w0, fire);
            }
        }
    }

    /// One whole simulated frame, in the dependency order of the system:
    /// input mapper, kinematic integrator, boundary clamp, lifetime policy,
    /// fire controller. The result is exactly `frame_spec` of the previous
    /// world and the keys, the world invariant is kept, and the player is
    /// never removed.
    pub fn frame(&mut self, keys: KeyInput)
        requires
            old(self).wf(),
            old(self)@.next_id < u64::MAX,
        ensures
            final(self)@ == frame_spec(old(self)@, keys),
            final(self).wf(),
            has_player(old(self)@.entities) ==> has_player(final(self)@.entities),
    {
        let ghost w0 = self@;
        self.player_keyboard_event(keys);
        self.movable_step();
        self.player_fire(keys.fire);
        proof {
            lemma_frame_wf(w0, keys);
        }
    }
}

} // verus!
