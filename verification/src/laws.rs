//! Laws of the simulation, proved over whole runs: any starting state fed
//! any sequence of per-tick inputs.

use vstd::prelude::*;

use crate::bullet::{advanced, advanced_by, lemma_live_bullet_dist};
use crate::geom::{in_playfield, len_sq};
use crate::gun::{cursor_ok, lemma_gun_offset_magnitude, scaled_gun_offset};
use crate::player::moved_player;
use crate::world::{
    bullet_with, fires, has_bullet_id, lemma_bullet_with, lemma_tick_model_wf,
    lemma_tick_tracks_bullet, tick_model, world_wf, TickInput, WorldModel,
};

verus! {

/// The state after feeding the inputs to the simulation, one tick each, in
/// order.
pub open spec fn run(m: WorldModel, inputs: Seq<TickInput>) -> WorldModel
    decreases inputs.len(),
{
    if inputs.len() == 0 {
        m
    } else {
        run(tick_model(m, inputs.first()), inputs.drop_first())
    }
}

/// Every cursor reading among the inputs is within the accepted range.
pub open spec fn inputs_ok(inputs: Seq<TickInput>) -> bool {
    forall|k: int| 0 <= k < inputs.len() ==> cursor_ok((#[trigger] inputs[k]).cursor)
}

/// For every sequence of held-key combinations (and any other input), the
/// player's clamped position stays inside the playfield:
/// `-X_EXTENT <= x <= X_EXTENT` and `-Y_EXTENT <= y <= Y_EXTENT`.
pub proof fn lemma_player_always_clamped(m: WorldModel, inputs: Seq<TickInput>)
    requires
        in_playfield(m.player),
    ensures
        in_playfield(run(m, inputs).player),
    decreases inputs.len(),
{
    if inputs.len() > 0 {
        lemma_player_always_clamped(tick_model(m, inputs.first()), inputs.drop_first());
    }
}

/// For every cursor reading distinct from the player's position, a tick
/// leaves the gun aimed exactly along the direction from the player (at its
/// new, already-moved position) to the cursor; the gun's local rotation is
/// `atan2` of that direction, which the model carries as the direction
/// itself, and its local offset — `GUN_OFFSET * d / |d|` — has magnitude
/// exactly `GUN_OFFSET`: scaled by `|d|`, its squared length is
/// `GUN_OFFSET^2 * |d|^2`.
pub proof fn lemma_gun_tracks_cursor(m: WorldModel, input: TickInput)
    requires
        in_playfield(m.player),
        cursor_ok(input.cursor),
        input.cursor is Some,
        !(input.cursor.unwrap().x == moved_player(m.player, input.keys).x
            && input.cursor.unwrap().y == moved_player(m.player, input.keys).y),
    ensures
        ({
            let p = moved_player(m.player, input.keys);
            let c = input.cursor.unwrap();
            let a = tick_model(m, input).aim;
            &&& a is Some
            &&& a.unwrap().x == c.x - p.x
            &&& a.unwrap().y == c.y - p.y
            &&& scaled_gun_offset(a.unwrap()).0 * scaled_gun_offset(a.unwrap()).0
                + scaled_gun_offset(a.unwrap()).1 * scaled_gun_offset(a.unwrap()).1 == crate::GUN_OFFSET
                * crate::GUN_OFFSET * len_sq(a.unwrap())
        }),
{
    lemma_gun_offset_magnitude(tick_model(m, input).aim.unwrap());
}

/// A whole run preserves well-formedness, and spawns at most one bullet per
/// tick: `next_id` never decreases and grows by at most the number of ticks.
pub proof fn lemma_run_wf(m: WorldModel, inputs: Seq<TickInput>)
    requires
        world_wf(m),
        inputs_ok(inputs),
        m.next_id + inputs.len() <= u64::MAX,
    ensures
        world_wf(run(m, inputs)),
        m.next_id <= run(m, inputs).next_id <= m.next_id + inputs.len(),
    decreases inputs.len(),
{
    if inputs.len() > 0 {
        let rest = inputs.drop_first();
        lemma_tick_model_wf(m, inputs.first());
        assert forall|k: int| 0 <= k < rest.len() implies cursor_ok(
            (#[trigger] rest[k]).cursor,
        ) by {
            assert(rest[k] == inputs[k + 1]);
        }
        lemma_run_wf(tick_model(m, inputs.first()), rest);
    }
}

/// Once a bullet is gone — its id is no live bullet's, though ids that small
/// have been handed out — no later tick brings it back: destruction is
/// permanent, and the spawner only ever creates fresh bullets.
pub proof fn lemma_despawn_is_permanent(m: WorldModel, inputs: Seq<TickInput>, id: u64)
    requires
        world_wf(m),
        inputs_ok(inputs),
        m.next_id + inputs.len() <= u64::MAX,
        !has_bullet_id(m, id),
        id < m.next_id,
    ensures
        !has_bullet_id(run(m, inputs), id),
    decreases inputs.len(),
{
    if inputs.len() > 0 {
        let t = tick_model(m, inputs.first());
        let rest = inputs.drop_first();
        lemma_tick_model_wf(m, inputs.first());
        assert(!has_bullet_id(t, id)) by {
            if has_bullet_id(t, id) {
                let j = choose|j: int| 0 <= j < t.bullets.len() && t.bullets[j].id == id;
                assert(has_bullet_id(m, t.bullets[j].id) || t.bullets[j].id == m.next_id);
            }
        }
        assert forall|k: int| 0 <= k < rest.len() implies cursor_ok(
            (#[trigger] rest[k]).cursor,
        ) by {
            assert(rest[k] == inputs[k + 1]);
        }
        lemma_despawn_is_permanent(t, rest, id);
    }
}

/// A bullet whose next Euler step carries it outside the playfield is
/// removed by that very tick's motion pass: it does not survive the first
/// tick on which its integrated position is out of bounds. Together with
/// `lemma_despawn_is_permanent`, destruction happens at the first
/// out-of-bounds tick and is one-way.
pub proof fn lemma_out_of_bounds_despawns(m: WorldModel, input: TickInput, id: u64)
    requires
        world_wf(m),
        cursor_ok(input.cursor),
        m.next_id < u64::MAX,
        has_bullet_id(m, id),
        crate::bullet::bullet_out(advanced(bullet_with(m, id))),
    ensures
        !has_bullet_id(tick_model(m, input), id),
{
    let t = tick_model(m, input);
    let queued = crate::world::queued_bullets(m, input);
    lemma_tick_model_wf(m, input);
    lemma_bullet_with(m, id);
    if has_bullet_id(t, id) {
        let j = choose|j: int| 0 <= j < t.bullets.len() && t.bullets[j].id == id;
        let w = choose|w: int| 0 <= w < queued.len() && t.bullets[j] == advanced(queued[w]);
        assert(queued[w].id == id);
        assert(w < m.bullets.len()) by {
            if w >= m.bullets.len() {
                assert(queued[w].id == m.next_id);
            }
        }
        assert(queued[w] == bullet_with(m, id));
        assert(!crate::bullet::bullet_out(t.bullets[j]));
    }
}

/// A bullet live now and still live after `n` further ticks has flown in a
/// straight line at constant velocity, with no drift: its origin and
/// direction are unchanged and it has advanced exactly `n` Euler steps of
/// `BULLET_SPEED` along its direction — by `n` times its scaled velocity in
/// ray-scaled coordinates (`lemma_straight_line_motion` spells the
/// displacement out).
pub proof fn lemma_bullet_flies_straight(m: WorldModel, inputs: Seq<TickInput>, id: u64)
    requires
        world_wf(m),
        inputs_ok(inputs),
        m.next_id + inputs.len() <= u64::MAX,
        has_bullet_id(m, id),
        has_bullet_id(run(m, inputs), id),
    ensures
        bullet_with(run(m, inputs), id) == advanced_by(bullet_with(m, id), inputs.len()),
    decreases inputs.len(),
{
    lemma_bullet_with(m, id);
    let b = bullet_with(m, id);
    lemma_live_bullet_dist(b);
    if inputs.len() == 0 {
        assert(advanced_by(b, 0) == b);
    } else {
        let t = tick_model(m, inputs.first());
        let rest = inputs.drop_first();
        lemma_tick_model_wf(m, inputs.first());
        assert forall|k: int| 0 <= k < rest.len() implies cursor_ok(
            (#[trigger] rest[k]).cursor,
        ) by {
            assert(rest[k] == inputs[k + 1]);
        }
        if !has_bullet_id(t, id) {
            lemma_despawn_is_permanent(t, rest, id);
        }
        lemma_tick_tracks_bullet(m, inputs.first(), id);
        lemma_bullet_flies_straight(t, rest, id);
        assert(bullet_with(run(m, inputs), id) == advanced_by(advanced(b), rest.len()));
        assert(advanced(b).dist == b.dist + crate::BULLET_SPEED);
        assert(advanced(b).dist + crate::BULLET_SPEED * rest.len() == b.dist + crate::BULLET_SPEED
            * inputs.len());
        assert(advanced_by(advanced(b), rest.len()) == advanced_by(b, inputs.len()));
    }
}

/// While the trigger stays held from a state where it was already held, no
/// tick spawns: the total number of bullets ever spawned does not change.
pub proof fn lemma_held_trigger_spawns_nothing(m: WorldModel, inputs: Seq<TickInput>)
    requires
        m.fire_was_held,
        forall|k: int| 0 <= k < inputs.len() ==> (#[trigger] inputs[k]).fire,
    ensures
        run(m, inputs).next_id == m.next_id,
    decreases inputs.len(),
{
    if inputs.len() > 0 {
        let t = tick_model(m, inputs.first());
        let rest = inputs.drop_first();
        assert(!fires(m, inputs.first()));
        assert forall|k: int| 0 <= k < rest.len() implies (#[trigger] rest[k]).fire by {
            assert(rest[k] == inputs[k + 1]);
        }
        lemma_held_trigger_spawns_nothing(t, rest);
    }
}

/// Holding the trigger over any number of consecutive ticks spawns exactly
/// one bullet, on the first of those ticks — or none at all if the trigger
/// was already held before, or if the gun has no usable aim on that first
/// tick. Spawning is edge-triggered, not level-triggered.
pub proof fn lemma_edge_triggered_fire(m: WorldModel, inputs: Seq<TickInput>)
    requires
        inputs.len() >= 1,
        forall|k: int| 0 <= k < inputs.len() ==> (#[trigger] inputs[k]).fire,
    ensures
        run(m, inputs).next_id == m.next_id + if fires(m, inputs.first()) {
            1int
        } else {
            0
        },
{
    let t = tick_model(m, inputs.first());
    let rest = inputs.drop_first();
    assert forall|k: int| 0 <= k < rest.len() implies (#[trigger] rest[k]).fire by {
        assert(rest[k] == inputs[k + 1]);
    }
    lemma_held_trigger_spawns_nothing(t, rest);
}

} // verus!
