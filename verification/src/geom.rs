//! Exact planar geometry for the simulation.
//!
//! All positions and directions are integer vectors. A point that lies at
//! distance `t` from an anchor along a direction `d` has coordinates
//! `anchor + (t / |d|) * d`, which is generally irrational; multiplying
//! through by `|d|` keeps every comparison in the integers, so predicates of
//! the form `a > b * |d|` (with `b >= 0`) are decided by comparing squares.

use vstd::prelude::*;

verus! {

/// A 2D integer vector: a position in world space or a direction.
#[derive(Clone, Copy, PartialEq, Eq, Structural, Debug)]
pub struct Vec2 {
    pub x: i64,
    pub y: i64,
}

/// Squared Euclidean length of `v`.
pub open spec fn len_sq(v: Vec2) -> int {
    v.x * v.x + v.y * v.y
}

/// Whether `v` is the zero vector (a degenerate direction).
pub open spec fn is_zero(v: Vec2) -> bool {
    v.x == 0 && v.y == 0
}

/// Whether position `p` lies inside the playfield rectangle
/// `[-X_EXTENT, X_EXTENT] x [-Y_EXTENT, Y_EXTENT]` (boundary included).
pub open spec fn in_playfield(p: Vec2) -> bool {
    &&& -crate::X_EXTENT <= p.x <= crate::X_EXTENT
    &&& -crate::Y_EXTENT <= p.y <= crate::Y_EXTENT
}

/// `v` clamped to the closed interval `[lo, hi]`.
pub open spec fn clamped(v: int, lo: int, hi: int) -> int {
    if v < lo {
        lo
    } else if v > hi {
        hi
    } else {
        v
    }
}

/// `a > b * sqrt(l)` for `b >= 0` and `l >= 0`, stated without square roots:
/// both sides are nonnegative exactly when `a > 0`, and then squaring is
/// order-preserving.
pub open spec fn exceeds_scaled(a: int, b: int, l: int) -> bool {
    a > 0 && a * a > b * b * l
}

/// A nonzero integer vector has squared length at least 1.
pub proof fn lemma_len_sq_positive(v: Vec2)
    requires
        !is_zero(v),
    ensures
        len_sq(v) >= 1,
{
    assert(v.x * v.x >= 0 && v.y * v.y >= 0 && (v.x != 0 ==> v.x * v.x >= 1) && (v.y != 0
        ==> v.y * v.y >= 1)) by (nonlinear_arith);
}

/// Exact clamp of an `i64` to `[lo, hi]`.
pub fn clamp_i64(v: i64, lo: i64, hi: i64) -> (r: i64)
    requires
        lo <= hi,
    ensures
        r == clamped(v as int, lo as int, hi as int),
{
    if v < lo {
        lo
    } else if v > hi {
        hi
    } else {
        v
    }
}

} // verus!
