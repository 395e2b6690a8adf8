//! Bullets: straight-line motion along an aim ray, with despawn on leaving
//! the playfield.
//!
//! A bullet fired from `origin` along the (nonzero) direction `dir` sits, at
//! any moment, at the exact point `origin + (dist / |dir|) * dir`, where
//! `dist` is the distance flown so far plus the gun offset. Only `dist`
//! changes as the bullet flies, so the bullet is stored as `(origin, dir,
//! dist)` and every coordinate scaled by `|dir|` is an exact integer. The
//! out-of-bounds test compares such scaled coordinates against the bounds
//! scaled by `|dir|`, which squaring turns into pure integer arithmetic.

use vstd::prelude::*;

use crate::geom::{exceeds_scaled, in_playfield, is_zero, len_sq, lemma_len_sq_positive, Vec2};
use crate::{BULLET_SPEED, DIR_LIMIT, GUN_OFFSET, X_EXTENT, Y_EXTENT};

verus! {

/// A live projectile.
#[derive(Clone, Copy, PartialEq, Eq, Structural, Debug)]
pub struct Bullet {
    /// Identity of the bullet; unique for the lifetime of a world, never
    /// reused once the bullet despawns.
    pub id: u64,
    /// World position of the player at the moment of firing.
    pub origin: Vec2,
    /// Aim direction at the moment of firing; nonzero, fixed for the whole
    /// flight. The bullet's velocity is `BULLET_SPEED` along this direction.
    pub dir: Vec2,
    /// Distance from `origin` along `dir`, in world units: `GUN_OFFSET` at
    /// spawn (the bullet appears at the gun), plus `BULLET_SPEED` per tick.
    pub dist: i64,
}

/// Well-formedness of a bullet: fired from inside the playfield, along a
/// nonzero bounded direction, no closer to its origin than the gun offset.
pub open spec fn bullet_wf(b: Bullet) -> bool {
    &&& in_playfield(b.origin)
    &&& !is_zero(b.dir)
    &&& -DIR_LIMIT <= b.dir.x <= DIR_LIMIT
    &&& -DIR_LIMIT <= b.dir.y <= DIR_LIMIT
    &&& b.dist >= GUN_OFFSET
}

/// The bullet's displacement from its origin, scaled by `|dir|`: the exact
/// position is `origin + scaled_disp(b) / |dir|`.
pub open spec fn scaled_disp(b: Bullet) -> (int, int) {
    (b.dist * b.dir.x, b.dist * b.dir.y)
}

/// The bullet's velocity scaled by `|dir|`: the exact velocity is
/// `BULLET_SPEED * dir / |dir|`.
pub open spec fn scaled_vel(d: Vec2) -> (int, int) {
    (BULLET_SPEED * d.x, BULLET_SPEED * d.y)
}

/// Whether the bullet's exact position lies strictly outside the playfield
/// on some axis. With `l = |dir|^2`, the coordinate `x = origin.x +
/// dist*dir.x / |dir|` exceeds `X_EXTENT` exactly when `dist*dir.x >
/// (X_EXTENT - origin.x) * |dir|`; since the right factor is nonnegative for
/// an origin inside the playfield, the comparison is decided on squares.
pub open spec fn bullet_out(b: Bullet) -> bool {
    let l = len_sq(b.dir);
    ||| exceeds_scaled(b.dist * b.dir.x, X_EXTENT - b.origin.x, l)
    ||| exceeds_scaled(-(b.dist * b.dir.x), X_EXTENT + b.origin.x, l)
    ||| exceeds_scaled(b.dist * b.dir.y, Y_EXTENT - b.origin.y, l)
    ||| exceeds_scaled(-(b.dist * b.dir.y), Y_EXTENT + b.origin.y, l)
}

/// The bullet one tick later: one Euler step of `BULLET_SPEED` along `dir`.
pub open spec fn advanced(b: Bullet) -> Bullet {
    Bullet { dist: (b.dist + BULLET_SPEED) as i64, ..b }
}

/// The bullet `n` ticks later.
pub open spec fn advanced_by(b: Bullet, n: nat) -> Bullet {
    Bullet { dist: (b.dist + BULLET_SPEED * n) as i64, ..b }
}

/// Upper bound on `dist` of any well-formed bullet still inside the
/// playfield, derived from the squared out-of-bounds inequalities. Any point
/// of the playfield is at distance well under this from any origin inside it.
pub const LIVE_DIST_MAX: i64 = 1697;

/// A well-formed bullet that is still in bounds has flown a bounded
/// distance: in-bounds means `|dist*dir.x| <= 1200*|dir|` and likewise for
/// y, so `dist^2*|dir|^2 <= 2*1200^2*|dir|^2` and `dist <= 1697`.
pub proof fn lemma_live_bullet_dist(b: Bullet)
    requires
        bullet_wf(b),
        !bullet_out(b),
    ensures
        b.dist <= LIVE_DIST_MAX,
{
    let l = len_sq(b.dir);
    lemma_len_sq_positive(b.dir);
    let ax = b.dist * b.dir.x;
    let ay = b.dist * b.dir.y;
    let bxp = X_EXTENT - b.origin.x;
    let bxm = X_EXTENT + b.origin.x;
    let byp = Y_EXTENT - b.origin.y;
    let bym = Y_EXTENT + b.origin.y;
    assert(0 <= bxp <= 1200 && 0 <= bxm <= 1200 && 0 <= byp <= 1200 && 0 <= bym <= 1200);
    assert(ax * ax <= 1_440_000 * l) by (nonlinear_arith)
        requires
            l >= 1,
            0 <= bxp <= 1200,
            0 <= bxm <= 1200,
            !exceeds_scaled(ax, bxp, l),
            !exceeds_scaled(-ax, bxm, l),
    {
        if ax > 0 {
            assert(ax * ax <= bxp * bxp * l);
            assert(bxp * bxp * l <= 1_440_000 * l);
        } else if ax < 0 {
            assert(-ax > 0);
            assert((-ax) * (-ax) <= bxm * bxm * l);
            assert(bxm * bxm * l <= 1_440_000 * l);
        }
    }
    assert(ay * ay <= 1_440_000 * l) by (nonlinear_arith)
        requires
            l >= 1,
            0 <= byp <= 1200,
            0 <= bym <= 1200,
            !exceeds_scaled(ay, byp, l),
            !exceeds_scaled(-ay, bym, l),
    {
        if ay > 0 {
            assert(ay * ay <= byp * byp * l);
            assert(byp * byp * l <= 1_440_000 * l);
        } else if ay < 0 {
            assert(-ay > 0);
            assert((-ay) * (-ay) <= bym * bym * l);
            assert(bym * bym * l <= 1_440_000 * l);
        }
    }
    assert(b.dist <= LIVE_DIST_MAX) by (nonlinear_arith)
        requires
            l == len_sq(b.dir),
            l >= 1,
            ax == b.dist * b.dir.x,
            ay == b.dist * b.dir.y,
            ax * ax <= 1_440_000 * l,
            ay * ay <= 1_440_000 * l,
            b.dist >= 0,
    {
        assert(ax * ax + ay * ay == b.dist * b.dist * l);
        assert(b.dist * b.dist * l <= 2_880_000 * l);
        assert(b.dist * b.dist <= 2_880_000);
        assert(b.dist <= 1697);
    }
}

/// Pure Euler integration, exactly: after `n` ticks the bullet has moved
/// from its spawn point by `n` times its velocity, with no drift. Stated on
/// coordinates scaled by `|dir|`, where everything is an integer.
pub proof fn lemma_straight_line_motion(b: Bullet, n: nat)
    requires
        b.dist + BULLET_SPEED * n <= i64::MAX,
    ensures
        advanced_by(b, n).origin == b.origin,
        advanced_by(b, n).dir == b.dir,
        advanced_by(b, n).dist == b.dist + BULLET_SPEED * n,
        scaled_disp(advanced_by(b, n)).0 == scaled_disp(b).0 + n * scaled_vel(b.dir).0,
        scaled_disp(advanced_by(b, n)).1 == scaled_disp(b).1 + n * scaled_vel(b.dir).1,
{
    assert((b.dist + BULLET_SPEED * n) * b.dir.x == b.dist * b.dir.x + n * (BULLET_SPEED
        * b.dir.x) && (b.dist + BULLET_SPEED * n) * b.dir.y == b.dist * b.dir.y + n * (BULLET_SPEED
        * b.dir.y)) by (nonlinear_arith);
}

/// The bullet's velocity has magnitude exactly `BULLET_SPEED`: its scaled
/// form satisfies `|scaled_vel(d)|^2 == BULLET_SPEED^2 * |d|^2`.
pub proof fn lemma_velocity_magnitude(d: Vec2)
    ensures
        scaled_vel(d).0 * scaled_vel(d).0 + scaled_vel(d).1 * scaled_vel(d).1 == BULLET_SPEED
            * BULLET_SPEED * len_sq(d),
{
    assert((BULLET_SPEED * d.x) * (BULLET_SPEED * d.x) + (BULLET_SPEED * d.y) * (BULLET_SPEED
        * d.y) == BULLET_SPEED * BULLET_SPEED * (d.x * d.x + d.y * d.y)) by (nonlinear_arith);
}

/// Decides `a > b * sqrt(l)` for a nonnegative `b`, by comparing squares.
/// The bounds admit every value the out-of-bounds test can produce: `a` is a
/// distance of at most `LIVE_DIST_MAX + BULLET_SPEED` times a component of at
/// most `DIR_LIMIT`, `b` is at most both playfield extents together, and `l`
/// is at most twice `DIR_LIMIT` squared; the squared products then stay well
/// inside `i128`.
fn exceeds_check(a: i128, b: i128, l: i128) -> (r: bool)
    requires
        -2_000_000_000_000 <= a <= 2_000_000_000_000,
        0 <= b <= 1200,
        0 <= l <= 3_000_000_000_000_000_000,
    ensures
        r == exceeds_scaled(a as int, b as int, l as int),
{
    proof {
        assert(a * a <= 2_000_000_000_000 * 2_000_000_000_000 && a * a >= 0 && 0 <= b * b
            <= 1_440_000 && 0 <= b * b * l <= 1_440_000 * 3_000_000_000_000_000_000)
            by (nonlinear_arith)
            requires
                -2_000_000_000_000 <= a <= 2_000_000_000_000,
                0 <= b <= 1200,
                0 <= l <= 3_000_000_000_000_000_000,
        ;
    }
    a > 0 && a * a > b * b * l
}

/// Whether the bullet's position lies strictly outside the playfield.
pub fn bullet_is_out(b: &Bullet) -> (r: bool)
    requires
        bullet_wf(*b),
        b.dist <= LIVE_DIST_MAX + BULLET_SPEED,
    ensures
        r == bullet_out(*b),
{
    let dx = b.dir.x as i128;
    let dy = b.dir.y as i128;
    let dist = b.dist as i128;
    proof {
        assert(0 <= dx * dx <= 1_100_000_000_000_000_000 && 0 <= dy * dy
            <= 1_100_000_000_000_000_000 && -2_000_000_000_000 <= dist * dx <= 2_000_000_000_000
            && -2_000_000_000_000 <= dist * dy <= 2_000_000_000_000) by (nonlinear_arith)
            requires
                -DIR_LIMIT <= dx <= DIR_LIMIT,
                -DIR_LIMIT <= dy <= DIR_LIMIT,
                0 <= dist <= LIVE_DIST_MAX + BULLET_SPEED,
        ;
    }
    let l = dx * dx + dy * dy;
    let ax = dist * dx;
    let ay = dist * dy;
    let out_x = exceeds_check(ax, (X_EXTENT - b.origin.x) as i128, l) || exceeds_check(
        -ax,
        (X_EXTENT + b.origin.x) as i128,
        l,
    );
    let out_y = exceeds_check(ay, (Y_EXTENT - b.origin.y) as i128, l) || exceeds_check(
        -ay,
        (Y_EXTENT + b.origin.y) as i128,
        l,
    );
    out_x || out_y
}

} // verus!
