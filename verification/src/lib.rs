//! Verified core of a top-down 2D shooter simulation.
//!
//! The library models the per-tick simulation step: player movement with
//! clamping to the playfield, cursor-relative aiming of a gun mounted on the
//! player, edge-triggered spawning of bullets, and straight-line bullet
//! motion with despawn on leaving the playfield. All geometry is exact: a
//! direction is kept as an integer vector, and points on the aim ray are
//! described by their distance along the ray, so that coordinates scaled by
//! the direction's length stay integers.

use vstd::prelude::*;

pub mod bullet;
pub mod geom;
pub mod gun;
pub mod laws;
pub mod player;
pub mod world;

verus! {

/// Half-width of the playfield: the player's x stays in
/// [-X_EXTENT, X_EXTENT], and a bullet whose x leaves it is despawned.
pub const X_EXTENT: i64 = 600;

/// Half-height of the playfield, bounding y the same way.
pub const Y_EXTENT: i64 = 300;

/// Distance the player moves along an axis for each held direction key.
pub const MOVE_STEP: i64 = 10;

/// Length of the gun's local offset from the player; a bullet starts its
/// flight this far from the player, along the aim direction.
pub const GUN_OFFSET: i64 = 30;

/// Distance a bullet travels along its direction each tick.
pub const BULLET_SPEED: i64 = 5;

/// Largest magnitude accepted for a cursor world coordinate. The bound keeps
/// every squared quantity of the out-of-bounds test within machine range.
pub const CURSOR_LIMIT: i64 = 1_000_000_000;

/// Largest magnitude a component of an aim direction can have: the cursor
/// bound plus the playfield half-width that the player can contribute.
pub const DIR_LIMIT: i64 = CURSOR_LIMIT + X_EXTENT;

} // verus!
