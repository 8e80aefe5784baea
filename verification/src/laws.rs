//! The library's laws: properties of the frame update that hold for every
//! input, stated over the model and proved once and for all.

use vstd::prelude::*;
use crate::components::EntityModel;
use crate::config::Config;
use crate::input::KeyInput;
use crate::model::WorldModel;
use crate::model::clamp_entity_model;
use crate::model::clamp_int;
use crate::model::frame_spawns;
use crate::model::frame_spec;
use crate::model::has_player;
use crate::model::ids_distinct;
use crate::model::integrate_entity_model;
use crate::model::keeps;
use crate::model::lemma_frame_wf;
use crate::model::lemma_sweep_props;
use crate::model::pre_fire_entities;
use crate::model::sweep;

verus! {

/// Integration additivity: one integrator step adds exactly the velocity
/// times the per-frame step to each position axis, and changes nothing else
/// of the entity.
pub proof fn lemma_integration_additivity(cfg: Config, e: EntityModel)
    ensures
        integrate_entity_model(cfg, e).px == e.px + e.vx * cfg.step,
        integrate_entity_model(cfg, e).py == e.py + e.vy * cfg.step,
        integrate_entity_model(cfg, e).vx == e.vx,
        integrate_entity_model(cfg, e).vy == e.vy,
        integrate_entity_model(cfg, e).id == e.id,
        integrate_entity_model(cfg, e).role == e.role,
        integrate_entity_model(cfg, e).auto_despawn == e.auto_despawn,
{
}

/// Clamp idempotence at the value level: clipping into a nonempty interval
/// is a projection.
pub proof fn lemma_clamp_int_idempotent(v: int, lo: int, hi: int)
    requires
        lo <= hi,
    ensures
        clamp_int(clamp_int(v, lo, hi), lo, hi) == clamp_int(v, lo, hi),
{
}

/// Clamp idempotence: applying the boundary clamp twice to an entity yields
/// the same entity as applying it once.
pub proof fn lemma_clamp_idempotent(cfg: Config, e: EntityModel)
    requires
        cfg.wf(),
    ensures
        clamp_entity_model(cfg, clamp_entity_model(cfg, e)) == clamp_entity_model(cfg, e),
{
}

/// Any number of consecutive frames, seen as one function of the world and
/// the per-frame key inputs.
pub open spec fn run_frames(w: WorldModel, inputs: Seq<KeyInput>) -> WorldModel
    decreases inputs.len(),
{
    if inputs.len() == 0 {
        w
    } else {
        run_frames(frame_spec(w, inputs[0]), inputs.drop_first())
    }
}

/// Any number of frames keeps the world invariant and the player, never
/// changes the configuration, and uses at most one fresh handle per frame.
pub proof fn lemma_run_frames_wf(w: WorldModel, inputs: Seq<KeyInput>)
    requires
        w.wf(),
        w.next_id + inputs.len() <= u64::MAX,
    ensures
        run_frames(w, inputs).wf(),
        w.next_id <= run_frames(w, inputs).next_id <= w.next_id + inputs.len(),
        run_frames(w, inputs).cfg == w.cfg,
        has_player(w.entities) ==> has_player(run_frames(w, inputs).entities),
    decreases inputs.len(),
{
    if inputs.len() > 0 {
        lemma_frame_wf(w, inputs[0]);
        lemma_run_frames_wf(frame_spec(w, inputs[0]), inputs.drop_first());
    }
}

/// Clamp invariant: over any number of frames of arbitrary key input, after
/// every frame the player's x stays within the horizontal clamp bounds and
/// its y within the vertical ones, and a world with a player keeps it.
pub proof fn lemma_boundary_clamp_invariant(w: WorldModel, inputs: Seq<KeyInput>)
    requires
        w.wf(),
        w.next_id + inputs.len() <= u64::MAX,
    ensures
        forall|n: int|
            0 <= n <= inputs.len() ==> (#[trigger] run_frames(
                w,
                inputs.take(n),
            )).player_within_bounds(),
        forall|n: int|
            0 <= n <= inputs.len() && has_player(w.entities) ==> has_player(
                (#[trigger] run_frames(w, inputs.take(n))).entities,
            ),
{
    assert forall|n: int| 0 <= n <= inputs.len() implies {
        &&& (#[trigger] run_frames(w, inputs.take(n))).player_within_bounds()
        &&& (has_player(w.entities) ==> has_player(run_frames(w, inputs.take(n)).entities))
    } by {
        lemma_run_frames_wf(w, inputs.take(n));
        let r = run_frames(w, inputs.take(n));
        assert forall|i: int|
            0 <= i < r.entities.len() && (#[trigger] r.entities[i]).is_player() implies {
            &&& r.cfg.min_x() <= r.entities[i].px <= r.cfg.max_x()
            &&& r.cfg.min_y() <= r.entities[i].py <= r.cfg.max_y()
        } by {
            assert(r.entities[i].inv(r.cfg));
        };
    };
}

/// Lifetime removal: after one lifetime pass, no entity carries the handle
/// of an auto-despawning entity that stood strictly above the top of the
/// play-field.
pub proof fn lemma_lifetime_removes(cfg: Config, s: Seq<EntityModel>, i: int)
    requires
        ids_distinct(s),
        0 <= i < s.len(),
        s[i].auto_despawn,
        s[i].py > cfg.despawn_y(),
    ensures
        forall|j: int|
            0 <= j < sweep(cfg, s).len() ==> (#[trigger] sweep(cfg, s)[j]).id != s[i].id,
{
    lemma_sweep_props(cfg, s);
    assert forall|j: int| 0 <= j < sweep(cfg, s).len() implies (#[trigger] sweep(cfg, s)[j]).id
        != s[i].id by {
        if sweep(cfg, s)[j].id == s[i].id {
            let k = choose|k: int| 0 <= k < s.len() && s[k] == sweep(cfg, s)[j];
            assert(keeps(cfg, s[k]));
            assert(!keeps(cfg, s[i]));
        }
    };
}

/// Lifetime retention: an entity at or below the top of the play-field, or
/// one not auto-despawned, survives the lifetime pass.
pub proof fn lemma_lifetime_keeps(cfg: Config, s: Seq<EntityModel>, i: int)
    requires
        0 <= i < s.len(),
        keeps(cfg, s[i]),
    ensures
        sweep(cfg, s).contains(s[i]),
{
    lemma_sweep_props(cfg, s);
}

/// A well-formed world holds no auto-despawning entity above the top of the
/// play-field: since every frame ends well-formed, a projectile that crosses
/// the top is removed by the very frame that moved it there and is never
/// processed again.
pub proof fn lemma_no_projectile_above_top(w: WorldModel)
    requires
        w.wf(),
    ensures
        forall|i: int|
            0 <= i < w.entities.len() && (#[trigger] w.entities[i]).auto_despawn
                ==> w.entities[i].py <= w.cfg.despawn_y(),
{
    assert forall|i: int|
        0 <= i < w.entities.len() && (#[trigger] w.entities[i]).auto_despawn
            implies w.entities[i].py <= w.cfg.despawn_y() by {
        assert(w.entities[i].inv(w.cfg));
    };
}

/// Fire edge-triggering: a frame spawns a projectile only on the frame where
/// the fire key goes from released to pressed; while the key is held nothing
/// spawns, the key's level is always recorded for the next frame, and a
/// frame that does not spawn leaves the post-sweep store and the handle
/// counter untouched.
pub proof fn lemma_fire_edge_triggering(w: WorldModel, keys: KeyInput)
    ensures
        frame_spec(w, keys).fire_prev == keys.fire,
        frame_spawns(w, keys) ==> keys.fire && !w.fire_prev,
        w.fire_prev && keys.fire ==> !frame_spawns(w, keys),
        !frame_spawns(w, keys) ==> frame_spec(w, keys).entities == pre_fire_entities(w, keys)
            && frame_spec(w, keys).next_id == w.next_id,
        frame_spawns(w, keys) ==> frame_spec(w, keys).entities.len() == pre_fire_entities(
            w,
            keys,
        ).len() + 1 && frame_spec(w, keys).next_id == w.next_id + 1,
{
}

} // verus!
