//! The simulation world and its per-tick transition.
//!
//! One tick runs the four components in their required order: player
//! movement with clamping, re-aiming of the gun from the player's new
//! position, edge-triggered bullet spawning from the gun's new transform,
//! and bullet motion with despawn on leaving the playfield. A bullet spawned
//! in a tick is also moved by that tick's motion pass.
//!
//! The whole transition is stated as the spec function [`tick_model`] over
//! [`WorldModel`], the mathematical view of a [`World`]; the executable
//! [`World::tick`] returns exactly that model.

use vstd::prelude::*;

use crate::bullet::{
    advanced, bullet_is_out, bullet_out, bullet_wf, lemma_live_bullet_dist, Bullet, LIVE_DIST_MAX,
};
use crate::geom::{in_playfield, Vec2};
use crate::gun::{aim_gun, aim_wf, aimed, cursor_ok};
use crate::player::{move_player, moved_player, HeldKeys};
use crate::{BULLET_SPEED, GUN_OFFSET, X_EXTENT, Y_EXTENT};

verus! {

/// Everything the simulation reads from its host during one tick: the held
/// movement keys, whether the fire trigger is held, and the cursor's world
/// position (`None` when the cursor is outside the window or the camera
/// cannot map it).
#[derive(Clone, Copy, PartialEq, Eq, Structural, Debug)]
pub struct TickInput {
    pub keys: HeldKeys,
    pub fire: bool,
    pub cursor: Option<Vec2>,
}

/// The mathematical state of the simulation.
#[verifier::ext_equal]
pub ghost struct WorldModel {
    /// The player's position, always inside the playfield.
    pub player: Vec2,
    /// The gun's aim direction; `None` until the aimer first sees a usable
    /// cursor.
    pub aim: Option<Vec2>,
    /// The live bullets, in spawn order.
    pub bullets: Seq<Bullet>,
    /// The number of bullets ever spawned; also the id the next bullet gets.
    pub next_id: int,
    /// Whether the fire trigger was held during the previous tick, for edge
    /// detection.
    pub fire_was_held: bool,
}

/// Well-formedness of a world: the player is clamped, the aim is a usable
/// direction if present, and the live bullets are well formed, in bounds,
/// and carry distinct ids below `next_id`, increasing in spawn order.
pub open spec fn world_wf(m: WorldModel) -> bool {
    &&& in_playfield(m.player)
    &&& aim_wf(m.aim)
    &&& 0 <= m.next_id <= u64::MAX
    &&& forall|i: int|
        0 <= i < m.bullets.len() ==> {
            &&& bullet_wf(#[trigger] m.bullets[i])
            &&& !bullet_out(m.bullets[i])
            &&& m.bullets[i].id < m.next_id
        }
    &&& forall|i: int, j: int|
        0 <= i < j < m.bullets.len() ==> (#[trigger] m.bullets[i].id) < (#[trigger] m.bullets[j].id)
}

/// Whether some live bullet carries the id.
pub open spec fn has_bullet_id(m: WorldModel, id: u64) -> bool {
    exists|i: int| 0 <= i < m.bullets.len() && #[trigger] m.bullets[i].id == id
}

/// The live bullet carrying `id`, where one does.
pub open spec fn bullet_with(m: WorldModel, id: u64) -> Bullet {
    m.bullets[choose|i: int| 0 <= i < m.bullets.len() && m.bullets[i].id == id]
}

/// In a well-formed world ids are unique, so `bullet_with` is *the* live
/// bullet with the id: well formed, in bounds, and equal to every live
/// bullet that carries the id.
pub proof fn lemma_bullet_with(m: WorldModel, id: u64)
    requires
        world_wf(m),
        has_bullet_id(m, id),
    ensures
        bullet_wf(bullet_with(m, id)),
        !bullet_out(bullet_with(m, id)),
        bullet_with(m, id).id == id,
        id < m.next_id,
        forall|i: int|
            0 <= i < m.bullets.len() && (#[trigger] m.bullets[i]).id == id ==> m.bullets[i]
                == bullet_with(m, id),
{
    let i0 = choose|i: int| 0 <= i < m.bullets.len() && m.bullets[i].id == id;
    assert(bullet_wf(m.bullets[i0]));
    assert forall|i: int|
        0 <= i < m.bullets.len() && (#[trigger] m.bullets[i]).id == id implies m.bullets[i]
        == bullet_with(m, id) by {
        if i < i0 {
            assert(m.bullets[i].id < m.bullets[i0].id);
        } else if i0 < i {
            assert(m.bullets[i0].id < m.bullets[i].id);
        }
    }
}

/// The bullet a press spawns: at the gun's world transform, which is the
/// player's new position plus the gun offset along the new aim, flying along
/// that same aim at `BULLET_SPEED`.
pub open spec fn spawned_bullet(id: int, player: Vec2, d: Vec2) -> Bullet {
    Bullet { id: id as u64, origin: player, dir: d, dist: GUN_OFFSET }
}

/// Whether the tick spawns a bullet: the trigger transitions from released
/// to held (edge, not level), and the gun, after this tick's aiming pass,
/// has a nondegenerate aim to fire along.
pub open spec fn fires(m: WorldModel, input: TickInput) -> bool {
    &&& input.fire
    &&& !m.fire_was_held
    &&& aimed(m.aim, moved_player(m.player, input.keys), input.cursor) is Some
}

/// The bullets awaiting the motion pass of a tick: the live bullets, plus
/// the bullet this tick's press spawns, if it spawns one.
pub open spec fn queued_bullets(m: WorldModel, input: TickInput) -> Seq<Bullet> {
    if fires(m, input) {
        m.bullets.push(
            spawned_bullet(
                m.next_id,
                moved_player(m.player, input.keys),
                aimed(m.aim, moved_player(m.player, input.keys), input.cursor).unwrap(),
            ),
        )
    } else {
        m.bullets
    }
}

/// The bullets surviving one motion pass over `s`: each bullet advanced one
/// Euler step, kept exactly when its new position is still inside the
/// playfield, in unchanged order.
pub open spec fn survivors(s: Seq<Bullet>) -> Seq<Bullet>
    decreases s.len(),
{
    if s.len() == 0 {
        Seq::empty()
    } else {
        let rest = survivors(s.drop_last());
        let b = advanced(s.last());
        if bullet_out(b) {
            rest
        } else {
            rest.push(b)
        }
    }
}

/// One simulation tick over the model, in the required component order:
/// movement, aiming from the new player position, edge-triggered spawning
/// from the new gun transform, then motion and despawn of every bullet (the
/// one spawned this tick included).
pub open spec fn tick_model(m: WorldModel, input: TickInput) -> WorldModel {
    let p = moved_player(m.player, input.keys);
    let a = aimed(m.aim, p, input.cursor);
    WorldModel {
        player: p,
        aim: a,
        bullets: survivors(queued_bullets(m, input)),
        next_id: m.next_id + if fires(m, input) {
            1int
        } else {
            0
        },
        fire_was_held: input.fire,
    }
}

/// Every survivor of a motion pass is some queued bullet advanced one step,
/// is in bounds, and — when the queued ids increase along the sequence — the
/// surviving ids still increase along the sequence.
pub proof fn lemma_survivors(s: Seq<Bullet>)
    requires
        forall|i: int, j: int| 0 <= i < j < s.len() ==> (#[trigger] s[i].id) < (#[trigger] s[j].id),
    ensures
        forall|j: int|
            0 <= j < survivors(s).len() ==> exists|i: int|
                0 <= i < s.len() && #[trigger] survivors(s)[j] == advanced(s[i]),
        forall|j: int| 0 <= j < survivors(s).len() ==> !bullet_out(#[trigger] survivors(s)[j]),
        forall|i: int, j: int|
            0 <= i < j < survivors(s).len() ==> (#[trigger] survivors(s)[i].id) < (#[trigger] survivors(s)[j].id),
    decreases s.len(),
{
    if s.len() > 0 {
        let s0 = s.drop_last();
        lemma_survivors(s0);
        assert forall|j: int| 0 <= j < survivors(s).len() implies exists|i: int|
            0 <= i < s.len() && #[trigger] survivors(s)[j] == advanced(s[i]) by {
            if j < survivors(s0).len() {
                let i = choose|i: int| 0 <= i < s0.len() && survivors(s0)[j] == advanced(s0[i]);
                assert(s0[i] == s[i]);
                assert(survivors(s)[j] == advanced(s[i]));
            } else {
                assert(survivors(s)[j] == advanced(s[s.len() - 1]));
            }
        }
        assert forall|i: int, j: int| 0 <= i < j < survivors(s).len() implies (
        #[trigger] survivors(s)[i].id) < (#[trigger] survivors(s)[j].id) by {
            if j < survivors(s0).len() {
                assert(survivors(s0)[i].id < survivors(s0)[j].id);
            } else {
                let wi = choose|w: int| 0 <= w < s0.len() && survivors(s0)[i] == advanced(s0[w]);
                assert(survivors(s)[i].id == s[wi].id);
                assert(s[wi].id < s[s.len() - 1].id);
            }
        }
    }
}

/// The simulation state: the player, the gun's aim, the live bullets, and
/// the bookkeeping for bullet identities and trigger edge detection.
pub struct World {
    player: Vec2,
    aim: Option<Vec2>,
    bullets: Vec<Bullet>,
    next_id: u64,
    fire_was_held: bool,
}

impl View for World {
    type V = WorldModel;

    closed spec fn view(&self) -> WorldModel {
        WorldModel {
            player: self.player,
            aim: self.aim,
            bullets: self.bullets@,
            next_id: self.next_id as int,
            fire_was_held: self.fire_was_held,
        }
    }
}

/// The world as it stands at startup: the player at `(x, y)`, the gun not
/// yet aimed, no bullets, no bullet ever spawned, trigger released.
pub open spec fn initial_world(p: Vec2) -> WorldModel {
    WorldModel { player: p, aim: Option::None, bullets: Seq::empty(), next_id: 0, fire_was_held: false }
}

impl World {
    /// Creates the world with the player at `(x, y)` inside the playfield.
    pub fn new(x: i64, y: i64) -> (w: World)
        requires
            -X_EXTENT <= x <= X_EXTENT,
            -Y_EXTENT <= y <= Y_EXTENT,
        ensures
            w@ == initial_world(Vec2 { x, y }),
            world_wf(w@),
    {
        let w = World {
            player: Vec2 { x, y },
            aim: Option::None,
            bullets: Vec::new(),
            next_id: 0,
            fire_was_held: false,
        };
        proof {
            assert(w@ =~= initial_world(Vec2 { x, y }));
        }
        w
    }

    /// The player's current position.
    pub fn player_pos(&self) -> (r: Vec2)
        ensures
            r == self@.player,
    {
        self.player
    }

    /// The gun's current aim direction, if the aimer has run on a usable
    /// cursor at least once.
    pub fn aim(&self) -> (r: Option<Vec2>)
        ensures
            r == self@.aim,
    {
        self.aim
    }

    /// How many bullets are live.
    pub fn bullet_count(&self) -> (r: usize)
        ensures
            r == self@.bullets.len(),
    {
        self.bullets.len()
    }

    /// The live bullet at index `i`, in spawn order.
    pub fn bullet(&self, i: usize) -> (r: Bullet)
        requires
            i < self@.bullets.len(),
        ensures
            r == self@.bullets[i as int],
    {
        self.bullets[i]
    }

    /// The number of bullets ever spawned.
    pub fn spawned_total(&self) -> (r: u64)
        ensures
            r == self@.next_id,
    {
        self.next_id
    }

    /// Whether a live bullet carries the id.
    pub fn has_bullet(&self, id: u64) -> (r: bool)
        ensures
            r == has_bullet_id(self@, id),
    {
        let n = self.bullets.len();
        let mut i: usize = 0;
        while i < n
            invariant
                i <= n,
                n == self.bullets@.len(),
                forall|k: int| 0 <= k < i ==> #[trigger] self.bullets@[k].id != id,
            decreases n - i,
        {
            if self.bullets[i].id == id {
                proof {
                    assert(self@.bullets[i as int].id == id);
                }
                return true;
            }
            i = i + 1;
        }
        false
    }

    /// Runs one simulation tick: movement, aiming, spawning, motion, in that
    /// order. The new state is exactly `tick_model` of the old one.
    pub fn tick(&mut self, input: &TickInput)
        requires
            world_wf(old(self)@),
            cursor_ok(input.cursor),
            old(self)@.next_id < u64::MAX,
        ensures
            final(self)@ == tick_model(old(self)@, *input),
            world_wf(final(self)@),
    {
        let ghost m = self@;
        move_player(&mut self.player, &input.keys);
        aim_gun(&mut self.aim, self.player, &input.cursor);
        if input.fire && !self.fire_was_held {
            match self.aim {
                Option::Some(d) => {
                    self.bullets.push(
                        Bullet { id: self.next_id, origin: self.player, dir: d, dist: GUN_OFFSET },
                    );
                    self.next_id = self.next_id + 1;
                },
                Option::None => {},
            }
        }
        let ghost queued = self.bullets@;
        proof {
            assert forall|i: int| 0 <= i < queued.len() implies bullet_wf(#[trigger] queued[i])
                && queued[i].dist <= LIVE_DIST_MAX by {
                if i < m.bullets.len() {
                    lemma_live_bullet_dist(queued[i]);
                }
            }
        }
        step_bullets(&mut self.bullets);
        self.fire_was_held = input.fire;
        proof {
            assert(self@ =~= tick_model(m, *input));
            lemma_tick_model_wf(m, *input);
        }
    }
}

/// One motion pass: advances every bullet one Euler step and keeps exactly
/// those whose new position is still inside the playfield. Creations and
/// destructions are applied to a fresh vector, after the whole pass.
pub fn step_bullets(bullets: &mut Vec<Bullet>)
    requires
        forall|i: int|
            0 <= i < old(bullets)@.len() ==> bullet_wf(#[trigger] old(bullets)@[i]) && old(
                bullets,
            )@[i].dist <= LIVE_DIST_MAX,
    ensures
        final(bullets)@ == survivors(old(bullets)@),
{
    let n = bullets.len();
    let mut kept: Vec<Bullet> = Vec::new();
    let mut i: usize = 0;
    while i < n
        invariant
            i <= n,
            n == bullets@.len(),
            bullets@ == old(bullets)@,
            forall|k: int|
                0 <= k < n ==> bullet_wf(#[trigger] bullets@[k]) && bullets@[k].dist
                    <= LIVE_DIST_MAX,
            kept@ == survivors(bullets@.take(i as int)),
        decreases n - i,
    {
        let b = bullets[i];
        let moved = Bullet { id: b.id, origin: b.origin, dir: b.dir, dist: b.dist + BULLET_SPEED };
        proof {
            assert(moved == advanced(bullets@[i as int]));
            assert(bullets@.take(i as int + 1).drop_last() =~= bullets@.take(i as int));
            assert(bullets@.take(i as int + 1).last() == bullets@[i as int]);
        }
        if !bullet_is_out(&moved) {
            kept.push(moved);
        }
        i = i + 1;
    }
    proof {
        assert(bullets@.take(n as int) =~= bullets@);
    }
    *bullets = kept;
}

/// One model tick preserves well-formedness: the player stays clamped, the
/// aim stays usable, and the surviving bullets are well formed, in bounds,
/// and keep distinct increasing ids below the new `next_id`. Every survivor
/// is a queued bullet advanced one step, so a tick never invents a bullet:
/// each surviving id was live before or is the id of this tick's spawn.
pub proof fn lemma_tick_model_wf(m: WorldModel, input: TickInput)
    requires
        world_wf(m),
        cursor_ok(input.cursor),
        m.next_id < u64::MAX,
    ensures
        world_wf(tick_model(m, input)),
        tick_model(m, input).next_id == m.next_id + if fires(m, input) {
            1int
        } else {
            0
        },
        forall|j: int|
            0 <= j < tick_model(m, input).bullets.len() ==> exists|w: int|
                0 <= w < queued_bullets(m, input).len() && #[trigger] tick_model(
                    m,
                    input,
                ).bullets[j] == advanced(queued_bullets(m, input)[w]),
        forall|j: int|
            0 <= j < tick_model(m, input).bullets.len() ==> has_bullet_id(
                m,
                #[trigger] tick_model(m, input).bullets[j].id,
            ) || tick_model(m, input).bullets[j].id == m.next_id,
{
    let p = moved_player(m.player, input.keys);
    let a = aimed(m.aim, p, input.cursor);
    let t = tick_model(m, input);
    let queued = queued_bullets(m, input);
    assert forall|i: int, j: int| 0 <= i < j < queued.len() implies (#[trigger] queued[i].id) < (
    #[trigger] queued[j].id) by {
        if j < m.bullets.len() {
            assert(m.bullets[i].id < m.bullets[j].id);
        } else {
            assert(queued[i].id < m.next_id);
        }
    }
    lemma_survivors(queued);
    assert forall|i: int| 0 <= i < t.bullets.len() implies {
        &&& bullet_wf(#[trigger] t.bullets[i])
        &&& !bullet_out(t.bullets[i])
        &&& t.bullets[i].id < t.next_id
    } by {
        let w = choose|w: int| 0 <= w < queued.len() && t.bullets[i] == advanced(queued[w]);
        if w < m.bullets.len() {
            lemma_live_bullet_dist(queued[w]);
        }
        assert(bullet_wf(queued[w]) && queued[w].dist + BULLET_SPEED <= i64::MAX);
        assert(queued[w].id < t.next_id);
    }
    assert forall|j: int| 0 <= j < t.bullets.len() implies has_bullet_id(
        m,
        #[trigger] t.bullets[j].id,
    ) || t.bullets[j].id == m.next_id by {
        let w = choose|w: int| 0 <= w < queued.len() && t.bullets[j] == advanced(queued[w]);
        if w < m.bullets.len() {
            assert(m.bullets[w].id == t.bullets[j].id);
        }
    }
}

/// A bullet live both before and after one tick is exactly the old bullet
/// advanced one Euler step: same identity, same origin, same direction, its
/// distance along the ray grown by `BULLET_SPEED`.
pub proof fn lemma_tick_tracks_bullet(m: WorldModel, input: TickInput, id: u64)
    requires
        world_wf(m),
        cursor_ok(input.cursor),
        m.next_id < u64::MAX,
        has_bullet_id(m, id),
        has_bullet_id(tick_model(m, input), id),
    ensures
        bullet_with(tick_model(m, input), id) == advanced(bullet_with(m, id)),
{
    let t = tick_model(m, input);
    let queued = queued_bullets(m, input);
    lemma_tick_model_wf(m, input);
    lemma_bullet_with(m, id);
    lemma_bullet_with(t, id);
    let j = choose|j: int| 0 <= j < t.bullets.len() && t.bullets[j].id == id;
    assert(t.bullets[j] == bullet_with(t, id));
    let w = choose|w: int| 0 <= w < queued.len() && t.bullets[j] == advanced(queued[w]);
    assert(queued[w].id == id);
    assert(w < m.bullets.len()) by {
        if w >= m.bullets.len() {
            assert(queued[w].id == m.next_id);
        }
    }
    assert(queued[w] == m.bullets[w]);
    assert(m.bullets[w] == bullet_with(m, id));
}

} // verus!
