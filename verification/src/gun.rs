//! Turret aimer: the gun is a child of the player, held at a fixed radial
//! offset of `GUN_OFFSET` units along the direction from the player to the
//! cursor, and rotated about the depth axis to face the cursor.
//!
//! The gun's local rotation in the reference frame is `atan2(d.y, d.x)` of
//! the aim direction `d`; since the angle and the ray of `d` determine each
//! other, the library keeps `d` itself (an exact integer vector) as the
//! gun's aim state. Its local offset is the exact point `GUN_OFFSET * d /
//! |d|`, held here in the `|d|`-scaled form `GUN_OFFSET * d`.

use vstd::prelude::*;

use crate::geom::{in_playfield, is_zero, len_sq, Vec2};
use crate::{CURSOR_LIMIT, DIR_LIMIT, GUN_OFFSET};

verus! {

/// Well-formedness of the gun's aim state: if the gun has ever been aimed,
/// the stored direction is nonzero with bounded components. `None` means the
/// aimer has not yet seen a usable cursor, so the gun has no defined aim.
pub open spec fn aim_wf(aim: Option<Vec2>) -> bool {
    match aim {
        Option::None => true,
        Option::Some(d) => !is_zero(d) && -DIR_LIMIT <= d.x <= DIR_LIMIT && -DIR_LIMIT <= d.y
            <= DIR_LIMIT,
    }
}

/// Whether a cursor reading is within the accepted coordinate range.
pub open spec fn cursor_ok(cursor: Option<Vec2>) -> bool {
    match cursor {
        Option::None => true,
        Option::Some(c) => -CURSOR_LIMIT <= c.x <= CURSOR_LIMIT && -CURSOR_LIMIT <= c.y
            <= CURSOR_LIMIT,
    }
}

/// The aim after one aiming pass: with no cursor reading (cursor outside the
/// window or camera unavailable) the gun keeps its previous aim; with a
/// cursor at the player's own position the direction is degenerate and the
/// gun also keeps its previous aim; otherwise the aim becomes the vector
/// from the player to the cursor.
pub open spec fn aimed(aim: Option<Vec2>, player: Vec2, cursor: Option<Vec2>) -> Option<Vec2> {
    match cursor {
        Option::None => aim,
        Option::Some(c) => if c.x == player.x && c.y == player.y {
            aim
        } else {
            Option::Some(Vec2 { x: (c.x - player.x) as i64, y: (c.y - player.y) as i64 })
        },
    }
}

/// The gun's local offset from the player, scaled by `|d|`: the exact offset
/// is `GUN_OFFSET * d / |d|`.
pub open spec fn scaled_gun_offset(d: Vec2) -> (int, int) {
    (GUN_OFFSET * d.x, GUN_OFFSET * d.y)
}

/// The gun's local offset has magnitude exactly `GUN_OFFSET` for every
/// nonzero aim direction: its `|d|`-scaled form has squared length
/// `GUN_OFFSET^2 * |d|^2`, so the exact offset has length `GUN_OFFSET`.
pub proof fn lemma_gun_offset_magnitude(d: Vec2)
    ensures
        scaled_gun_offset(d).0 * scaled_gun_offset(d).0 + scaled_gun_offset(d).1
            * scaled_gun_offset(d).1 == GUN_OFFSET * GUN_OFFSET * len_sq(d),
{
    assert((GUN_OFFSET * d.x) * (GUN_OFFSET * d.x) + (GUN_OFFSET * d.y) * (GUN_OFFSET * d.y)
        == GUN_OFFSET * GUN_OFFSET * (d.x * d.x + d.y * d.y)) by (nonlinear_arith);
}

/// Re-aims the gun toward the cursor, from the player's current position.
/// Mutates only the aim; skips the update when the cursor is unavailable or
/// the direction would be degenerate.
pub fn aim_gun(aim: &mut Option<Vec2>, player: Vec2, cursor: &Option<Vec2>)
    requires
        in_playfield(player),
        cursor_ok(*cursor),
        aim_wf(*old(aim)),
    ensures
        *final(aim) == aimed(*old(aim), player, *cursor),
        aim_wf(*final(aim)),
{
    match cursor {
        Option::None => {},
        Option::Some(c) => {
            let dx = c.x - player.x;
            let dy = c.y - player.y;
            if dx != 0 || dy != 0 {
                *aim = Option::Some(Vec2 { x: dx, y: dy });
            }
        },
    }
}

} // verus!
