//! Scenario tests for the simulation core: movement and clamping, aiming,
//! edge-triggered fire, straight-line bullet flight and despawn at the
//! playfield bounds.

use shooter_core::geom::Vec2;
use shooter_core::player::HeldKeys;
use shooter_core::world::{TickInput, World};

fn keys(up: bool, down: bool, left: bool, right: bool) -> HeldKeys {
    HeldKeys { up, down, left, right }
}

fn idle() -> TickInput {
    TickInput { keys: keys(false, false, false, false), fire: false, cursor: None }
}

fn held(up: bool, down: bool, left: bool, right: bool) -> TickInput {
    TickInput { keys: keys(up, down, left, right), fire: false, cursor: None }
}

fn fire_at(x: i64, y: i64) -> TickInput {
    TickInput { keys: keys(false, false, false, false), fire: true, cursor: Some(Vec2 { x, y }) }
}

#[test]
fn player_clamps_at_right_edge() {
    // Player at (590, 0), holding "right" for 3 ticks of +10 each: the final
    // x is clamped to 600, not 620.
    let mut w = World::new(590, 0);
    for _ in 0..3 {
        w.tick(&held(false, false, false, true));
    }
    assert_eq!(w.player_pos(), Vec2 { x: 600, y: 0 });
}

#[test]
fn player_stays_in_playfield_under_any_keys() {
    let mut w = World::new(0, 1);
    // Diagonal movement far past the corner: both coordinates clamp.
    for _ in 0..100 {
        w.tick(&held(false, true, true, false));
    }
    assert_eq!(w.player_pos(), Vec2 { x: -600, y: -300 });
    // Opposite keys cancel.
    let before = w.player_pos();
    w.tick(&held(true, true, true, true));
    assert_eq!(w.player_pos(), before);
}

#[test]
fn player_moves_by_step_on_each_axis() {
    let mut w = World::new(0, 0);
    w.tick(&held(true, false, false, true));
    assert_eq!(w.player_pos(), Vec2 { x: 10, y: 10 });
    w.tick(&held(false, true, true, false));
    assert_eq!(w.player_pos(), Vec2 { x: 0, y: 0 });
}

#[test]
fn gun_aims_from_player_to_cursor() {
    // Player at (0, 1), cursor at world (100, 1): the aim direction is
    // (100, 0), whose angle atan2(0, 100) is 0.
    let mut w = World::new(0, 1);
    w.tick(&TickInput {
        keys: keys(false, false, false, false),
        fire: false,
        cursor: Some(Vec2 { x: 100, y: 1 }),
    });
    assert_eq!(w.aim(), Some(Vec2 { x: 100, y: 0 }));
    // The gun's local offset, scaled by |direction|, is GUN_OFFSET * dir;
    // its squared length is exactly GUN_OFFSET^2 * |dir|^2 (magnitude 30).
    let d = w.aim().unwrap();
    let (ox, oy) = (shooter_core::GUN_OFFSET * d.x, shooter_core::GUN_OFFSET * d.y);
    assert_eq!(ox * ox + oy * oy, 30 * 30 * (d.x * d.x + d.y * d.y));
}

#[test]
fn gun_keeps_aim_without_cursor() {
    let mut w = World::new(0, 0);
    w.tick(&TickInput {
        keys: keys(false, false, false, false),
        fire: false,
        cursor: Some(Vec2 { x: 7, y: -3 }),
    });
    assert_eq!(w.aim(), Some(Vec2 { x: 7, y: -3 }));
    // Cursor unavailable: aim unchanged.
    w.tick(&idle());
    assert_eq!(w.aim(), Some(Vec2 { x: 7, y: -3 }));
    // Cursor exactly on the player: degenerate direction, aim unchanged.
    w.tick(&TickInput {
        keys: keys(false, false, false, false),
        fire: false,
        cursor: Some(Vec2 { x: 0, y: 0 }),
    });
    assert_eq!(w.aim(), Some(Vec2 { x: 7, y: -3 }));
}

#[test]
fn holding_trigger_spawns_exactly_one_bullet() {
    let mut w = World::new(0, 1);
    for _ in 0..5 {
        w.tick(&fire_at(100, 1));
    }
    assert_eq!(w.spawned_total(), 1);
    assert_eq!(w.bullet_count(), 1);
    // Releasing and pressing again spawns exactly one more.
    w.tick(&TickInput {
        keys: keys(false, false, false, false),
        fire: false,
        cursor: Some(Vec2 { x: 100, y: 1 }),
    });
    for _ in 0..4 {
        w.tick(&fire_at(100, 1));
    }
    assert_eq!(w.spawned_total(), 2);
}

#[test]
fn trigger_without_aim_spawns_nothing() {
    // The aimer has never seen a usable cursor, so the gun's offset is
    // degenerate and the spawn is skipped.
    let mut w = World::new(0, 0);
    w.tick(&TickInput { keys: keys(false, false, false, false), fire: true, cursor: None });
    assert_eq!(w.spawned_total(), 0);
    assert_eq!(w.bullet_count(), 0);
}

#[test]
fn bullet_advances_five_units_each_tick() {
    // Aim along +x: the bullet's exact x equals its distance along the ray.
    let mut w = World::new(0, 1);
    w.tick(&fire_at(100, 1));
    let b = w.bullet(0);
    assert_eq!(b.origin, Vec2 { x: 0, y: 1 });
    assert_eq!(b.dir, Vec2 { x: 100, y: 0 });
    // Spawned at the gun (30 from the player) and moved once this tick.
    assert_eq!(b.dist, 35);
    for t in 1..=10 {
        w.tick(&fire_at(100, 1));
        let b = w.bullet(0);
        assert_eq!(b.dist, 35 + 5 * t);
        assert_eq!(b.origin, Vec2 { x: 0, y: 1 });
        assert_eq!(b.dir, Vec2 { x: 100, y: 0 });
    }
}

#[test]
fn bullet_despawns_past_right_edge() {
    // Player at (0, 1), cursor at (100, 1): bullet flies along +x from
    // x = 30 (the gun), 5 per tick, moving already on its spawn tick. It is
    // retained at x = 600 exactly, and removed on the tick its x reaches
    // 605 > 600.
    let mut w = World::new(0, 1);
    w.tick(&fire_at(100, 1));
    assert_eq!(w.bullet_count(), 1);
    let id = w.bullet(0).id;
    // dist goes 35, 40, ...; after 113 further ticks it is exactly 600.
    for _ in 0..113 {
        w.tick(&fire_at(100, 1));
    }
    assert_eq!(w.bullet_count(), 1);
    assert_eq!(w.bullet(0).dist, 600);
    // One more tick: x becomes 605 > 600, and the bullet is gone.
    w.tick(&fire_at(100, 1));
    assert_eq!(w.bullet_count(), 0);
    assert!(!w.has_bullet(id));
    // It never reappears, and no new bullet was ever spawned meanwhile.
    for _ in 0..50 {
        w.tick(&fire_at(100, 1));
        assert!(!w.has_bullet(id));
    }
    assert_eq!(w.spawned_total(), 1);
}

#[test]
fn bullet_despawns_on_diagonal_at_top_edge() {
    // Direction (300, 400) has length 500: the exact position is
    // (0.6, 0.8) * dist. The bullet leaves through the top: y = 300 exactly
    // at dist 375 (retained), y = 304 > 300 at dist 380 (removed).
    let mut w = World::new(0, 0);
    w.tick(&fire_at(300, 400));
    assert_eq!(w.bullet_count(), 1);
    assert_eq!(w.bullet(0).dist, 35);
    for _ in 0..68 {
        w.tick(&idle());
    }
    assert_eq!(w.bullet_count(), 1);
    assert_eq!(w.bullet(0).dist, 375);
    w.tick(&idle());
    assert_eq!(w.bullet_count(), 0);
}

#[test]
fn bullet_spawned_out_of_bounds_despawns_same_tick() {
    // Player on the top edge aiming straight up: the gun sits at y = 329,
    // already outside, so the spawned bullet is removed by the same tick's
    // motion pass. It still counts as spawned.
    let mut w = World::new(0, 299);
    w.tick(&fire_at(0, 400));
    assert_eq!(w.spawned_total(), 1);
    assert_eq!(w.bullet_count(), 0);
}

#[test]
fn bullets_have_fresh_increasing_ids() {
    let mut w = World::new(0, 0);
    w.tick(&fire_at(100, 0));
    w.tick(&idle());
    w.tick(&fire_at(100, 0));
    assert_eq!(w.bullet_count(), 2);
    let (a, b) = (w.bullet(0), w.bullet(1));
    assert_eq!(a.id, 0);
    assert_eq!(b.id, 1);
    assert!(w.has_bullet(0) && w.has_bullet(1));
    assert!(!w.has_bullet(2));
}

#[test]
fn long_session_keeps_invariants() {
    // A varied session: wander, re-aim, tap and hold the trigger. After
    // every tick the player is clamped, live bullets are in bounds, and ids
    // increase in spawn order and stay below the spawn total.
    let mut w = World::new(0, 1);
    for t in 0..200u32 {
        let input = TickInput {
            keys: keys(t % 3 == 0, t % 7 == 1, t % 5 == 2, t % 2 == 0),
            fire: t % 4 < 2,
            cursor: if t % 11 == 10 {
                None
            } else {
                Some(Vec2 { x: (t as i64 * 37) % 701 - 350, y: (t as i64 * 53) % 401 - 200 })
            },
        };
        w.tick(&input);
        let p = w.player_pos();
        assert!((-600..=600).contains(&p.x) && (-300..=300).contains(&p.y));
        let count = w.bullet_count();
        for i in 0..count {
            let b = w.bullet(i);
            assert!(!shooter_core::bullet::bullet_is_out(&b));
            assert!((b.id as u64) < w.spawned_total());
            if i + 1 < count {
                assert!(b.id < w.bullet(i + 1).id);
            }
        }
    }
    // Holding the trigger half the time spawned one bullet per press edge:
    // ticks 0,1 fire, 2,3 do not, so 50 edges in 200 ticks — minus presses
    // where the cursor sat exactly on the player, which spawn nothing.
    assert!(w.spawned_total() <= 50);
    assert!(w.spawned_total() >= 40);
}

#[test]
fn tick_order_aims_before_spawning() {
    // The gun is re-aimed from the player's new position before the spawn
    // reads it: moving right while the cursor sits at (20, 0) gives the
    // direction from (10, 0), not from (0, 0).
    let mut w = World::new(0, 0);
    w.tick(&TickInput {
        keys: keys(false, false, false, true),
        fire: true,
        cursor: Some(Vec2 { x: 20, y: 0 }),
    });
    assert_eq!(w.player_pos(), Vec2 { x: 10, y: 0 });
    assert_eq!(w.aim(), Some(Vec2 { x: 10, y: 0 }));
    let b = w.bullet(0);
    assert_eq!(b.origin, Vec2 { x: 10, y: 0 });
    assert_eq!(b.dir, Vec2 { x: 10, y: 0 });
}
