//! Player controller: held direction keys move the player by fixed steps,
//! and the position is clamped to the playfield each tick.

use vstd::prelude::*;

use crate::geom::{clamp_i64, clamped, in_playfield, Vec2};
use crate::{MOVE_STEP, X_EXTENT, Y_EXTENT};

verus! {

/// The movement keys held during one tick. Opposite keys may be held
/// together (their deltas cancel), and diagonal movement is the plain sum of
/// both axis deltas.
#[derive(Clone, Copy, PartialEq, Eq, Structural, Debug)]
pub struct HeldKeys {
    pub up: bool,
    pub down: bool,
    pub left: bool,
    pub right: bool,
}

/// The x delta the held keys ask for: `+MOVE_STEP` for right, `-MOVE_STEP`
/// for left.
pub open spec fn delta_x(k: HeldKeys) -> int {
    (if k.right {
        MOVE_STEP as int
    } else {
        0
    }) - (if k.left {
        MOVE_STEP as int
    } else {
        0
    })
}

/// The y delta the held keys ask for: `+MOVE_STEP` for up, `-MOVE_STEP` for
/// down.
pub open spec fn delta_y(k: HeldKeys) -> int {
    (if k.up {
        MOVE_STEP as int
    } else {
        0
    }) - (if k.down {
        MOVE_STEP as int
    } else {
        0
    })
}

/// The player's position after one movement pass: both axis deltas applied,
/// then each coordinate clamped to the playfield independently.
pub open spec fn moved_player(p: Vec2, k: HeldKeys) -> Vec2 {
    Vec2 {
        x: clamped(p.x + delta_x(k), -X_EXTENT as int, X_EXTENT as int) as i64,
        y: clamped(p.y + delta_y(k), -Y_EXTENT as int, Y_EXTENT as int) as i64,
    }
}

/// Applies the held keys to the player's position and clamps it to the
/// playfield. The clamped position always lies inside the playfield,
/// whatever keys are held.
pub fn move_player(p: &mut Vec2, keys: &HeldKeys)
    requires
        in_playfield(*old(p)),
    ensures
        *final(p) == moved_player(*old(p), *keys),
        in_playfield(*final(p)),
{
    let mut x = p.x;
    let mut y = p.y;
    if keys.up {
        y = y + MOVE_STEP;
    }
    if keys.down {
        y = y - MOVE_STEP;
    }
    if keys.left {
        x = x - MOVE_STEP;
    }
    if keys.right {
        x = x + MOVE_STEP;
    }
    p.x = clamp_i64(x, -X_EXTENT, X_EXTENT);
    p.y = clamp_i64(y, -Y_EXTENT, Y_EXTENT);
}

} // verus!
