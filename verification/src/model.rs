//! The mathematical model of one simulated frame: steering, integration,
//! clamping, the lifetime sweep and the fire controller, as functions over
//! sequences of entity models, together with the lemmas that carry the
//! world's invariant across a frame.

use vstd::prelude::*;
use crate::components::EntityModel;
use crate::components::Role;
use crate::config::Config;
use crate::input::KeyInput;
use crate::input::steer_x;
use crate::input::steer_y;

verus! {

/// The mathematical model of a whole world: the configuration, the entity
/// store, the next fresh entity handle, and the fire key's level on the
/// previous frame.
pub ghost struct WorldModel {
    pub cfg: Config,
    pub entities: Seq<EntityModel>,
    pub next_id: int,
    pub fire_prev: bool,
}

/// The input mapper's effect on one entity: the player's velocity is
/// overwritten with the steering derived from the keys; every other entity is
/// untouched.
pub open spec fn steer_entity(e: EntityModel, keys: KeyInput) -> EntityModel {
    if e.is_player() {
        EntityModel { vx: steer_x(keys), vy: steer_y(keys), ..e }
    } else {
        e
    }
}

/// The input mapper over the whole store.
pub open spec fn apply_input(s: Seq<EntityModel>, keys: KeyInput) -> Seq<EntityModel> {
    s.map_values(|e: EntityModel| steer_entity(e, keys))
}

/// The kinematic integrator's effect on one entity: each position axis
/// advances by the velocity times the per-frame step.
pub open spec fn integrate_entity_model(cfg: Config, e: EntityModel) -> EntityModel {
    EntityModel { px: e.px + e.vx * cfg.step, py: e.py + e.vy * cfg.step, ..e }
}

/// The kinematic integrator over the whole store.
pub open spec fn integrate_all_model(cfg: Config, s: Seq<EntityModel>) -> Seq<EntityModel> {
    s.map_values(|e: EntityModel| integrate_entity_model(cfg, e))
}

/// Hard clip of a value into `[lo, hi]`.
pub open spec fn clamp_int(v: int, lo: int, hi: int) -> int {
    if v < lo {
        lo
    } else if v > hi {
        hi
    } else {
        v
    }
}

/// The boundary clamp's effect on one entity: the player's position is
/// clipped into the play-field rectangle shrunk by the player's half-extent;
/// every other entity is untouched.
pub open spec fn clamp_entity_model(cfg: Config, e: EntityModel) -> EntityModel {
    if e.is_player() {
        EntityModel {
            px: clamp_int(e.px, cfg.min_x(), cfg.max_x()),
            py: clamp_int(e.py, cfg.min_y(), cfg.max_y()),
            ..e
        }
    } else {
        e
    }
}

/// The boundary clamp over the whole store.
pub open spec fn clamp_all_model(cfg: Config, s: Seq<EntityModel>) -> Seq<EntityModel> {
    s.map_values(|e: EntityModel| clamp_entity_model(cfg, e))
}

/// Whether the lifetime policy keeps an entity: everything stays except an
/// auto-despawning entity strictly above the top of the play-field.
pub open spec fn keeps(cfg: Config, e: EntityModel) -> bool {
    !(e.auto_despawn && e.py > cfg.despawn_y())
}

/// The lifetime policy over the whole store: the subsequence of entities the
/// policy keeps, in their original order.
pub open spec fn sweep(cfg: Config, s: Seq<EntityModel>) -> Seq<EntityModel>
    decreases s.len(),
{
    if s.len() == 0 {
        Seq::empty()
    } else {
        let rest = sweep(cfg, s.drop_last());
        if keeps(cfg, s.last()) {
            rest.push(s.last())
        } else {
            rest
        }
    }
}

/// The index of the first player at or after position `i`, if any.
pub open spec fn find_player_from(s: Seq<EntityModel>, i: int) -> Option<int>
    decreases s.len() - i,
{
    if i < 0 || i >= s.len() {
        None
    } else if s[i].is_player() {
        Some(i)
    } else {
        find_player_from(s, i + 1)
    }
}

/// The index of the first player in the store, if any.
pub open spec fn find_player_idx(s: Seq<EntityModel>) -> Option<int> {
    find_player_from(s, 0)
}

/// Whether some player entity is in the store.
pub open spec fn has_player(s: Seq<EntityModel>) -> bool {
    exists|i: int| 0 <= i < s.len() && (#[trigger] s[i]).is_player()
}

/// No two distinct positions of the store hold a player.
pub open spec fn at_most_one_player(s: Seq<EntityModel>) -> bool {
    forall|i: int, j: int|
        0 <= i < j < s.len() ==> !((#[trigger] s[i]).is_player() && (#[trigger] s[j]).is_player())
}

/// Every handle is a valid `u64` below `bound`.
pub open spec fn ids_below(s: Seq<EntityModel>, bound: int) -> bool {
    forall|i: int| 0 <= i < s.len() ==> 0 <= (#[trigger] s[i]).id < bound
}

/// No two distinct positions of the store share a handle.
pub open spec fn ids_distinct(s: Seq<EntityModel>) -> bool {
    forall|i: int, j: int|
        0 <= i < j < s.len() ==> (#[trigger] s[i]).id != (#[trigger] s[j]).id
}

/// The projectile the fire controller spawns: it starts at the player's nose
/// (the player's center raised by the player's half-height), travels straight
/// up at the configured velocity, and is auto-despawned at the top.
pub open spec fn spawned_projectile(cfg: Config, player: EntityModel, id: int) -> EntityModel {
    EntityModel {
        id,
        px: player.px,
        py: player.py + cfg.half_py,
        vx: 0,
        vy: cfg.laser_vy as int,
        role: Role::Projectile,
        auto_despawn: true,
    }
}

/// A fire edge: the fire key is pressed this frame and was released on the
/// previous one. Holding the key gives no edge.
pub open spec fn fire_edge(prev: bool, fire: bool) -> bool {
    fire && !prev
}

/// The input mapper's phase of a frame.
pub open spec fn input_phase(w: WorldModel, keys: KeyInput) -> WorldModel {
    WorldModel { entities: apply_input(w.entities, keys), ..w }
}

/// The movement phase of a frame: the integrator over every entity, then the
/// boundary clamp on the player, then the lifetime sweep.
pub open spec fn move_phase(w: WorldModel) -> WorldModel {
    WorldModel {
        entities: sweep(
            w.cfg,
            clamp_all_model(w.cfg, integrate_all_model(w.cfg, w.entities)),
        ),
        ..w
    }
}

/// The fire controller's phase of a frame: on a fire edge, and when a player
/// exists, push a fresh projectile at the player's nose; in every case record
/// the fire key's level for the next frame's edge detection.
pub open spec fn fire_phase(w: WorldModel, fire: bool) -> WorldModel {
    if fire_edge(w.fire_prev, fire) && find_player_idx(w.entities).is_some() {
        WorldModel {
            cfg: w.cfg,
            entities: w.entities.push(
                spawned_projectile(
                    w.cfg,
                    w.entities[find_player_idx(w.entities).unwrap()],
                    w.next_id,
                ),
            ),
            next_id: w.next_id + 1,
            fire_prev: fire,
        }
    } else {
        WorldModel { fire_prev: fire, ..w }
    }
}

/// The store after the input mapper, the integrator, the boundary clamp and
/// the lifetime sweep, before the fire controller runs.
pub open spec fn pre_fire_entities(w: WorldModel, keys: KeyInput) -> Seq<EntityModel> {
    move_phase(input_phase(w, keys)).entities
}

/// Whether this frame spawns a projectile: there is a fire edge and a player
/// to fire from.
pub open spec fn frame_spawns(w: WorldModel, keys: KeyInput) -> bool {
    fire_edge(w.fire_prev, keys.fire) && find_player_idx(pre_fire_entities(w, keys)).is_some()
}

/// One whole simulated frame, in the order input mapper, integrator, boundary
/// clamp, lifetime policy, fire controller.
pub open spec fn frame_spec(w: WorldModel, keys: KeyInput) -> WorldModel {
    fire_phase(move_phase(input_phase(w, keys)), keys.fire)
}

impl WorldModel {
    /// The world invariant, holding between frames: the configuration is
    /// well-formed, at most one player exists, every entity satisfies its
    /// role's invariant, and handles are unique `u64` values below the
    /// next fresh one.
    pub open spec fn wf(self) -> bool {
        &&& self.cfg.wf()
        &&& at_most_one_player(self.entities)
        &&& forall|i: int|
            0 <= i < self.entities.len() ==> (#[trigger] self.entities[i]).inv(self.cfg)
        &&& ids_below(self.entities, self.next_id)
        &&& ids_distinct(self.entities)
        &&& 0 <= self.next_id <= u64::MAX
    }

    /// Every player in the store sits inside the clamp bounds.
    pub open spec fn player_within_bounds(self) -> bool {
        forall|i: int|
            0 <= i < self.entities.len() && (#[trigger] self.entities[i]).is_player() ==> {
                &&& self.cfg.min_x() <= self.entities[i].px <= self.cfg.max_x()
                &&& self.cfg.min_y() <= self.entities[i].py <= self.cfg.max_y()
            }
    }
}

/// A product of a bounded factor and a nonnegative bounded factor is bounded.
pub proof fn lemma_mul_bound(v: int, vb: int, s: int, sb: int)
    requires
        -vb <= v <= vb,
        0 <= s <= sb,
        0 <= vb,
    ensures
        -(vb * sb) <= v * s <= vb * sb,
        0 <= v ==> 0 <= v * s,
        v == 0 ==> v * s == 0,
{
    assert(-(vb * sb) <= v * s <= vb * sb && (0 <= v ==> 0 <= v * s) && (v == 0 ==> v * s == 0))
        by (nonlinear_arith)
        requires
            -vb <= v <= vb,
            0 <= s <= sb,
            0 <= vb,
    ;
}

/// What the lifetime sweep leaves in the store: only entities the policy
/// keeps, all of them drawn from the input, and every kept input entity is
/// still there.
pub proof fn lemma_sweep_props(cfg: Config, s: Seq<EntityModel>)
    ensures
        sweep(cfg, s).len() <= s.len(),
        forall|j: int| 0 <= j < sweep(cfg, s).len() ==> keeps(cfg, #[trigger] sweep(cfg, s)[j]),
        forall|j: int| 0 <= j < sweep(cfg, s).len() ==> s.contains(#[trigger] sweep(cfg, s)[j]),
        forall|i: int|
            0 <= i < s.len() && keeps(cfg, #[trigger] s[i]) ==> sweep(cfg, s).contains(s[i]),
    decreases s.len(),
{
    if s.len() == 0 {
    } else {
        let prefix = s.drop_last();
        let rest = sweep(cfg, prefix);
        lemma_sweep_props(cfg, prefix);
        assert forall|j: int| 0 <= j < sweep(cfg, s).len() implies s.contains(
            #[trigger] sweep(cfg, s)[j],
        ) by {
            if j < rest.len() {
                let k = choose|k: int| 0 <= k < prefix.len() && prefix[k] == rest[j];
                assert(s[k] == sweep(cfg, s)[j]);
            } else {
                assert(s[s.len() - 1] == sweep(cfg, s)[j]);
            }
        };
        assert forall|i: int|
            0 <= i < s.len() && keeps(cfg, #[trigger] s[i]) implies sweep(cfg, s).contains(
            s[i],
        ) by {
            if i < s.len() - 1 {
                assert(prefix[i] == s[i]);
                let k = choose|k: int| 0 <= k < rest.len() && rest[k] == s[i];
                assert(sweep(cfg, s)[k] == s[i]);
            } else {
                assert(sweep(cfg, s).last() == s[i]);
            }
        };
    }
}

/// The lifetime sweep keeps handles unique and below their bound, and never
/// leaves two players behind.
pub proof fn lemma_sweep_wf(cfg: Config, s: Seq<EntityModel>, bound: int)
    requires
        ids_below(s, bound),
        ids_distinct(s),
        at_most_one_player(s),
    ensures
        ids_below(sweep(cfg, s), bound),
        ids_distinct(sweep(cfg, s)),
        at_most_one_player(sweep(cfg, s)),
    decreases s.len(),
{
    if s.len() == 0 {
    } else {
        let prefix = s.drop_last();
        let rest = sweep(cfg, prefix);
        lemma_sweep_wf(cfg, prefix, bound);
        lemma_sweep_props(cfg, prefix);
        if keeps(cfg, s.last()) {
            assert forall|j: int| 0 <= j < rest.len() implies (#[trigger] rest[j]).id
                != s.last().id && !(rest[j].is_player() && s.last().is_player()) by {
                let k = choose|k: int| 0 <= k < prefix.len() && prefix[k] == rest[j];
                assert(s[k] == rest[j]);
                assert(s[k].id != s[s.len() - 1].id);
            };
            assert(sweep(cfg, s) == rest.push(s.last()));
        }
    }
}

/// The lifetime sweep never removes an entity that is not auto-despawned, so
/// a store with a player keeps it.
pub proof fn lemma_sweep_keeps_player(cfg: Config, s: Seq<EntityModel>)
    requires
        forall|i: int|
            0 <= i < s.len() && (#[trigger] s[i]).is_player() ==> !s[i].auto_despawn,
    ensures
        has_player(s) ==> has_player(sweep(cfg, s)),
{
    lemma_sweep_props(cfg, s);
    if has_player(s) {
        let i = choose|i: int| 0 <= i < s.len() && (#[trigger] s[i]).is_player();
        assert(keeps(cfg, s[i]));
        let j = choose|j: int| 0 <= j < sweep(cfg, s).len() && sweep(cfg, s)[j] == s[i];
        assert(sweep(cfg, s)[j].is_player());
    }
}

/// What `find_player_from` returns: the first player index at or after `i`,
/// or `None` when there is none.
pub proof fn lemma_find_player_from(s: Seq<EntityModel>, i: int)
    requires
        0 <= i <= s.len(),
    ensures
        match find_player_from(s, i) {
            Some(j) => {
                &&& i <= j < s.len()
                &&& s[j].is_player()
                &&& forall|k: int| i <= k < j ==> !(#[trigger] s[k]).is_player()
            },
            None => forall|k: int| i <= k < s.len() ==> !(#[trigger] s[k]).is_player(),
        },
    decreases s.len() - i,
{
    if i < s.len() {
        if !s[i].is_player() {
            lemma_find_player_from(s, i + 1);
        }
    }
}

/// The first-player search succeeds exactly when a player is in the store.
pub proof fn lemma_find_player_has(s: Seq<EntityModel>)
    ensures
        find_player_idx(s).is_some() <==> has_player(s),
        find_player_idx(s).is_some() ==> {
            let j = find_player_idx(s).unwrap();
            0 <= j < s.len() && s[j].is_player()
        },
{
    lemma_find_player_from(s, 0);
    if find_player_idx(s).is_none() && has_player(s) {
        let i = choose|i: int| 0 <= i < s.len() && (#[trigger] s[i]).is_player();
        assert(!s[i].is_player());
    }
}

/// Where an entity may stand right after integration, before the clamp and
/// the sweep restore the world invariant.
pub open spec fn moved_ok(cfg: Config, e: EntityModel) -> bool {
    match e.role {
        Role::Player => {
            &&& !e.auto_despawn
            &&& -1 <= e.vx <= 1
            &&& -1 <= e.vy <= 1
            &&& cfg.min_x() - cfg.step <= e.px <= cfg.max_x() + cfg.step
            &&& cfg.min_y() - cfg.step <= e.py <= cfg.max_y() + cfg.step
        },
        Role::Projectile => {
            &&& e.auto_despawn
            &&& e.vx == 0
            &&& e.vy == cfg.laser_vy
            &&& cfg.min_x() <= e.px <= cfg.max_x()
            &&& -cfg.half_h <= e.py <= cfg.half_h + cfg.laser_vy * cfg.step
        },
    }
}

/// Largest position magnitude the kinematic integrator accepts, in subunits;
/// far above anything a well-formed world can reach, and small enough that
/// one integration step cannot overflow an `i64`.
pub const POS_LIMIT: i64 = 4_000_000_000;

/// Position and velocity magnitudes under which one integration step stays
/// within `i64`.
pub open spec fn entity_fits(e: EntityModel) -> bool {
    &&& -POS_LIMIT <= e.px <= POS_LIMIT
    &&& -POS_LIMIT <= e.py <= POS_LIMIT
    &&& -crate::config::MAX_LASER_VELOCITY <= e.vx <= crate::config::MAX_LASER_VELOCITY
    &&& -crate::config::MAX_LASER_VELOCITY <= e.vy <= crate::config::MAX_LASER_VELOCITY
}

/// The player ship as spawned at startup: horizontally centered, a spawn
/// margin above the bottom clamp bound, at rest.
pub open spec fn initial_player(cfg: Config, id: int) -> EntityModel {
    EntityModel {
        id,
        px: 0,
        py: cfg.min_y() + cfg.spawn_margin,
        vx: 0,
        vy: 0,
        role: Role::Player,
        auto_despawn: false,
    }
}

/// The input mapper keeps the world invariant and the set of players.
pub proof fn lemma_input_phase_wf(w: WorldModel, keys: KeyInput)
    requires
        w.wf(),
    ensures
        input_phase(w, keys).wf(),
        has_player(input_phase(w, keys).entities) <==> has_player(w.entities),
{
    let s0 = w.entities;
    let s1 = input_phase(w, keys).entities;
    assert forall|i: int| 0 <= i < s1.len() implies {
        &&& (#[trigger] s1[i]).id == s0[i].id
        &&& s1[i].role == s0[i].role
        &&& s1[i].inv(w.cfg)
    } by {
        assert(s1[i] == steer_entity(s0[i], keys));
        assert(s0[i].inv(w.cfg));
    };
    if has_player(s0) {
        let i = choose|i: int| 0 <= i < s0.len() && (#[trigger] s0[i]).is_player();
        assert(s1[i].is_player());
    }
    if has_player(s1) {
        let i = choose|i: int| 0 <= i < s1.len() && (#[trigger] s1[i]).is_player();
        assert(s0[i].is_player());
    }
}

/// The movement phase keeps the world invariant: integration may push the
/// player at most one step outside the clamp bounds, the clamp brings it
/// back, and the sweep removes exactly the projectiles that left the top.
pub proof fn lemma_move_phase_wf(w: WorldModel)
    requires
        w.wf(),
    ensures
        move_phase(w).wf(),
        has_player(w.entities) ==> has_player(move_phase(w).entities),
{
    let cfg = w.cfg;
    let s1 = w.entities;
    let s2 = integrate_all_model(cfg, s1);
    let s3 = clamp_all_model(cfg, s2);
    let s4 = sweep(cfg, s3);

    assert forall|i: int| 0 <= i < s3.len() implies {
        &&& (#[trigger] s3[i]).id == s1[i].id
        &&& s3[i].role == s1[i].role
        &&& (s3[i].is_player() ==> s3[i].inv(cfg))
        &&& moved_ok(cfg, s3[i])
    } by {
        let e1 = s1[i];
        let e2 = s2[i];
        assert(e2 == integrate_entity_model(cfg, e1));
        assert(s3[i] == clamp_entity_model(cfg, e2));
        assert(e1.inv(cfg));
        if e1.role is Player {
            lemma_mul_bound(e1.vx, 1, cfg.step as int, cfg.step as int);
            lemma_mul_bound(e1.vy, 1, cfg.step as int, cfg.step as int);
        } else {
            lemma_mul_bound(e1.vx, 0, cfg.step as int, cfg.step as int);
            lemma_mul_bound(e1.vy, cfg.laser_vy as int, cfg.step as int, cfg.step as int);
        }
        assert(s3[i].id == s1[i].id);
        assert(s3[i].role == s1[i].role);
        assert(s3[i].is_player() ==> s3[i].inv(cfg));
        assert(moved_ok(cfg, s3[i]));
    };

    assert(ids_below(s3, w.next_id));
    assert(ids_distinct(s3));
    assert(at_most_one_player(s3));
    lemma_sweep_wf(cfg, s3, w.next_id);
    lemma_sweep_props(cfg, s3);

    assert forall|j: int| 0 <= j < s4.len() implies (#[trigger] s4[j]).inv(cfg) by {
        let k = choose|k: int| 0 <= k < s3.len() && s3[k] == s4[j];
        assert(moved_ok(cfg, s3[k]));
        assert(keeps(cfg, s4[j]));
    };

    if has_player(s1) {
        let i = choose|i: int| 0 <= i < s1.len() && (#[trigger] s1[i]).is_player();
        assert(s3[i].is_player());
        assert(has_player(s3));
        lemma_sweep_keeps_player(cfg, s3);
    }
}

/// The fire controller keeps the world invariant, never removes an entity,
/// and uses at most one fresh handle.
pub proof fn lemma_fire_phase_wf(w: WorldModel, fire: bool)
    requires
        w.wf(),
        w.next_id < u64::MAX,
    ensures
        fire_phase(w, fire).wf(),
        has_player(w.entities) ==> has_player(fire_phase(w, fire).entities),
        w.next_id <= fire_phase(w, fire).next_id <= w.next_id + 1,
{
    let cfg = w.cfg;
    let s = w.entities;
    if fire_edge(w.fire_prev, fire) && find_player_idx(s).is_some() {
        lemma_find_player_has(s);
        let p = s[find_player_idx(s).unwrap()];
        let proj = spawned_projectile(cfg, p, w.next_id);
        assert(p.inv(cfg));
        assert(proj.inv(cfg));
        let s5 = s.push(proj);
        assert forall|j: int| 0 <= j < s5.len() implies (#[trigger] s5[j]).inv(cfg) by {
            if j < s.len() {
                assert(s5[j] == s[j]);
            } else {
                assert(s5[j] == proj);
            }
        };
        if has_player(s) {
            let i = choose|i: int| 0 <= i < s.len() && (#[trigger] s[i]).is_player();
            assert(s5[i].is_player());
        }
    }
}

/// One frame keeps the world invariant, never removes the player, and uses at
/// most one fresh handle.
pub proof fn lemma_frame_wf(w: WorldModel, keys: KeyInput)
    requires
        w.wf(),
        w.next_id < u64::MAX,
    ensures
        frame_spec(w, keys).wf(),
        has_player(w.entities) ==> has_player(frame_spec(w, keys).entities),
        w.next_id <= frame_spec(w, keys).next_id <= w.next_id + 1,
{
    lemma_input_phase_wf(w, keys);
    lemma_move_phase_wf(input_phase(w, keys));
    lemma_fire_phase_wf(move_phase(input_phase(w, keys)), keys.fire);
}

} // verus!
