//! Click-to-move locomotion on the ground plane, in fixed point.
//!
//! Coordinates are thousandths of a world unit. Each frame the character
//! advances a fixed step toward its target while farther away than a stop
//! threshold, and a click inside the play area picks a new target.

use vstd::arithmetic::div_mod::{
    lemma_div_is_ordered, lemma_div_multiples_vanish, lemma_div_non_zero,
};
use vstd::arithmetic::mul::lemma_mul_inequality;
use vstd::prelude::*;

use crate::math::{isqrt, sqrt_of};

verus! {

/// Thousandths of a world unit per world unit.
pub const UNIT_MILLI: i64 = 1000;

/// Distance walked per frame: a fifth of a unit.
pub const STEP_MILLI: i64 = 200;

/// The character stops once within half a unit of its target.
pub const STOP_DIST_MILLI: i64 = 500;

/// The play area: clicks outside this rectangle on the ground plane are
/// ignored. One axis runs from 0 to 80 units, the other within 15 units
/// of the centre line.
pub const AREA_X_MIN: i64 = 0;

pub const AREA_X_MAX: i64 = 80_000;

pub const AREA_Z_MIN: i64 = -15_000;

pub const AREA_Z_MAX: i64 = 15_000;

/// All world positions this library works with stay within this bound,
/// a thousand units from the origin on each axis.
pub const COORD_LIMIT: i64 = 1_000_000;

/// A point in world space, in thousandths of a world unit.
#[derive(Debug, Clone, Copy, PartialEq, Eq, Structural)]
pub struct Vec3 {
    pub x: i64,
    pub y: i64,
    pub z: i64,
}

impl Vec3 {
    /// Every coordinate lies within the world bound.
    pub open spec fn in_bounds(self) -> bool {
        &&& -COORD_LIMIT <= self.x <= COORD_LIMIT
        &&& -COORD_LIMIT <= self.y <= COORD_LIMIT
        &&& -COORD_LIMIT <= self.z <= COORD_LIMIT
    }

    pub fn new(x: i64, y: i64, z: i64) -> (v: Vec3)
        ensures
            v.x == x,
            v.y == y,
            v.z == z,
    {
        Vec3 { x, y, z }
    }
}

/// The last known ground-plane position under the mouse cursor.
#[derive(Debug, Clone, Copy, PartialEq, Eq, Structural)]
pub struct MousePosition {
    pub pos: Vec3,
}

/// The player character; its facing, in thousandths of a radian, is set
/// by the engine when it orients the model toward the target.
#[derive(Debug, Clone, Copy, PartialEq, Eq, Structural)]
pub struct Player {
    pub direction: i64,
}

/// Tags the ground-plane entity that mouse rays are cast against.
#[derive(Debug, Clone, Copy, PartialEq, Eq, Structural)]
pub struct Ground;

/// Tags the entities that exist only while the splash screen is up.
#[derive(Debug, Clone, Copy, PartialEq, Eq, Structural)]
pub struct OnSplashScreen;

/// The point lies inside the clickable play area: on the ground plane
/// (height zero) and within the rectangle.
pub open spec fn play_area_contains(p: Vec3) -> bool {
    &&& p.y == 0
    &&& AREA_X_MIN <= p.x <= AREA_X_MAX
    &&& AREA_Z_MIN <= p.z <= AREA_Z_MAX
}

/// Whether a point is inside the play area.
pub fn in_play_area(p: &Vec3) -> (r: bool)
    ensures
        r == play_area_contains(*p),
{
    p.y == 0 && AREA_X_MIN <= p.x && p.x <= AREA_X_MAX && AREA_Z_MIN <= p.z && p.z <= AREA_Z_MAX
}

/// The movement target after a frame's input: a click on a point inside
/// the play area moves the target there; anything else leaves it alone.
pub open spec fn selected_target(current: Vec3, hit: Vec3, clicked: bool) -> Vec3 {
    if clicked && play_area_contains(hit) {
        hit
    } else {
        current
    }
}

/// Fold one frame's click input into the movement target.
pub fn select_target(current: &Vec3, hit: &Vec3, clicked: bool) -> (t: Vec3)
    ensures
        t == selected_target(*current, *hit, clicked),
{
    if clicked && in_play_area(hit) {
        *hit
    } else {
        *current
    }
}

/// The squared distance between two points, in squared thousandths.
pub open spec fn dist_sq_spec(a: Vec3, b: Vec3) -> int {
    (b.x - a.x) * (b.x - a.x) + (b.y - a.y) * (b.y - a.y) + (b.z - a.z) * (b.z - a.z)
}

/// The character counts as arrived once within the stop threshold.
pub open spec fn arrived_spec(pos: Vec3, target: Vec3) -> bool {
    dist_sq_spec(pos, target) <= (STOP_DIST_MILLI as int) * (STOP_DIST_MILLI as int)
}

/// The length of the line from `a` to `b`, rounded down to whole
/// thousandths: the integer square root of the squared distance.
pub open spec fn sqrt_of_dist(a: Vec3, b: Vec3) -> int {
    sqrt_of(dist_sq_spec(a, b) as nat) as int
}

/// The absolute difference of two coordinates, with its square equal to
/// the square of the signed difference.
fn abs_delta(from: i64, to: i64) -> (d: u64)
    requires
        -COORD_LIMIT <= from <= COORD_LIMIT,
        -COORD_LIMIT <= to <= COORD_LIMIT,
    ensures
        d <= 2 * COORD_LIMIT,
        d as int == span(from as int, to as int),
        (d as int) * (d as int) == (to - from) * (to - from),
{
    if to >= from {
        (to - from) as u64
    } else {
        proof {
            assert((from - to) * (from - to) == (to - from) * (to - from)) by (nonlinear_arith);
        }
        (from - to) as u64
    }
}

/// The squared distance between two in-bounds points.
pub fn dist_sq(a: &Vec3, b: &Vec3) -> (d: u64)
    requires
        a.in_bounds(),
        b.in_bounds(),
    ensures
        d as int == dist_sq_spec(*a, *b),
{
    let dx = abs_delta(a.x, b.x);
    let dy = abs_delta(a.y, b.y);
    let dz = abs_delta(a.z, b.z);
    proof {
        assert(dx * dx <= 4_000_000_000_000 && dy * dy <= 4_000_000_000_000 && dz * dz
            <= 4_000_000_000_000) by (nonlinear_arith)
            requires
                dx <= 2_000_000u64,
                dy <= 2_000_000u64,
                dz <= 2_000_000u64,
        ;
    }
    dx * dx + dy * dy + dz * dz
}

/// `m` lies between `a` and `b`, inclusive.
pub open spec fn between(a: int, m: int, b: int) -> bool {
    (a <= m <= b) || (b <= m <= a)
}

/// The distance between two coordinates on one axis.
pub open spec fn span(a: int, b: int) -> int {
    if b >= a {
        b - a
    } else {
        a - b
    }
}

/// The squared span of an axis is the square of the signed difference.
proof fn lemma_span_sq_eq(a: int, b: int)
    ensures
        span(a, b) * span(a, b) == (b - a) * (b - a),
{
    if b < a {
        assert((a - b) * (a - b) == (b - a) * (b - a)) by (nonlinear_arith);
    }
}

/// Whichever coordinate is strictly closer along an axis contributes a
/// strictly smaller square.
proof fn lemma_span_sq_lt(o: int, n: int, t: int)
    requires
        span(n, t) < span(o, t),
    ensures
        (t - n) * (t - n) < (t - o) * (t - o),
{
    lemma_span_sq_eq(n, t);
    lemma_span_sq_eq(o, t);
    assert(span(n, t) * span(n, t) < span(o, t) * span(o, t)) by (nonlinear_arith)
        requires
            0 <= span(n, t) < span(o, t),
    ;
}

/// Among the axis spans of a stretch of length at least `d`, the largest
/// exceeds half of `d`.
proof fn lemma_max_axis(ax: int, ay: int, az: int, d: int, dsq: int)
    requires
        0 <= ax,
        0 <= ay,
        0 <= az,
        dsq == ax * ax + ay * ay + az * az,
        0 < d,
        d * d <= dsq,
    ensures
        2 * ax > d || 2 * ay > d || 2 * az > d,
{
    if 2 * ax <= d && 2 * ay <= d && 2 * az <= d {
        assert(4 * (ax * ax) <= d * d && 4 * (ay * ay) <= d * d && 4 * (az * az) <= d * d)
            by (nonlinear_arith)
            requires
                0 <= ax,
                0 <= ay,
                0 <= az,
                2 * ax <= d,
                2 * ay <= d,
                2 * az <= d,
        ;
        assert(0 < d * d) by (nonlinear_arith)
            requires
                0 < d,
        ;
        assert(false);
    }
}

/// One axis of a movement step: advance from `from` toward `to` by the
/// fixed step length, scaled by this axis's share `|to - from| / d` of the
/// full distance `d`.
pub open spec fn axis_step(from: int, to: int, d: int) -> int {
    if to >= from {
        from + (to - from) * (STEP_MILLI as int) / d
    } else {
        from - (from - to) * (STEP_MILLI as int) / d
    }
}

/// Scaling a length down by `s / d` with `s <= d` cannot grow it.
proof fn lemma_scale_le(delta: int, s: int, d: int)
    requires
        0 <= delta,
        0 < s <= d,
    ensures
        delta * s / d <= delta,
        0 <= delta * s / d,
{
    lemma_mul_inequality(s, d, delta);
    lemma_div_is_ordered(delta * s, delta * d, d);
    lemma_div_multiples_vanish(delta, d);
    assert(delta * d == d * delta) by (nonlinear_arith);
    assert(0 <= delta * s) by (nonlinear_arith)
        requires
            0 <= delta,
            0 <= s,
    ;
    lemma_div_is_ordered(0, delta * s, d);
}

/// Advance one coordinate toward its target along a step of full length
/// `d`; never past the target, since the step is no longer than `d`.
fn axis_advance(from: i64, to: i64, d: u64) -> (r: i64)
    requires
        -COORD_LIMIT <= from <= COORD_LIMIT,
        -COORD_LIMIT <= to <= COORD_LIMIT,
        STEP_MILLI as int <= d as int,
    ensures
        r as int == axis_step(from as int, to as int, d as int),
        between(from as int, r as int, to as int),
        2 * span(from as int, to as int) > d as int ==> span(r as int, to as int) < span(
            from as int,
            to as int,
        ),
{
    let step: u64 = STEP_MILLI as u64;
    if to >= from {
        let delta: u64 = (to - from) as u64;
        let mov: u64 = delta * step / d;
        proof {
            lemma_scale_le(delta as int, step as int, d as int);
            if 2 * (delta as int) > d as int {
                assert((delta as int) * (step as int) >= d as int) by (nonlinear_arith)
                    requires
                        2 * (delta as int) > d as int,
                        step == 200u64,
                        0 < d,
                ;
                lemma_div_non_zero((delta as int) * (step as int), d as int);
            }
        }
        from + (mov as i64)
    } else {
        let delta: u64 = (from - to) as u64;
        let mov: u64 = delta * step / d;
        proof {
            lemma_scale_le(delta as int, step as int, d as int);
            if 2 * (delta as int) > d as int {
                assert((delta as int) * (step as int) >= d as int) by (nonlinear_arith)
                    requires
                        2 * (delta as int) > d as int,
                        step == 200u64,
                        0 < d,
                ;
                lemma_div_non_zero((delta as int) * (step as int), d as int);
            }
        }
        from - (mov as i64)
    }
}

/// One locomotion frame: if the character has arrived it holds position,
/// otherwise it advances one fixed step toward the target, each coordinate
/// scaled by the integer square root of the squared distance. Returns the
/// new position and whether the character moved.
pub fn step_toward(pos: &Vec3, target: &Vec3) -> (r: (Vec3, bool))
    requires
        pos.in_bounds(),
        target.in_bounds(),
    ensures
        r.1 == !arrived_spec(*pos, *target),
        !r.1 ==> r.0 == *pos,
        r.1 ==> ({
            let d = sqrt_of_dist(*pos, *target);
            &&& r.0.x as int == axis_step(pos.x as int, target.x as int, d)
            &&& r.0.y as int == axis_step(pos.y as int, target.y as int, d)
            &&& r.0.z as int == axis_step(pos.z as int, target.z as int, d)
        }),
        between(pos.x as int, r.0.x as int, target.x as int),
        between(pos.y as int, r.0.y as int, target.y as int),
        between(pos.z as int, r.0.z as int, target.z as int),
        r.1 ==> dist_sq_spec(r.0, *target) < dist_sq_spec(*pos, *target),
        r.0.in_bounds(),
{
    let dsq = dist_sq(pos, target);
    let stop_sq: u64 = (STOP_DIST_MILLI * STOP_DIST_MILLI) as u64;
    if dsq <= stop_sq {
        (*pos, false)
    } else {
        let d = isqrt(dsq);
        proof {
            if (d as int) < (STOP_DIST_MILLI as int) {
                assert((d as nat + 1) * (d as nat + 1) <= 250_000) by (nonlinear_arith)
                    requires
                        d as nat + 1 <= 500,
                ;
                assert(false);
            }
        }
        let nx = axis_advance(pos.x, target.x, d);
        let ny = axis_advance(pos.y, target.y, d);
        let nz = axis_advance(pos.z, target.z, d);
        proof {
            let tx = target.x as int;
            let ty = target.y as int;
            let tz = target.z as int;
            let ax = span(pos.x as int, tx);
            let ay = span(pos.y as int, ty);
            let az = span(pos.z as int, tz);
            lemma_span_sq_eq(pos.x as int, tx);
            lemma_span_sq_eq(pos.y as int, ty);
            lemma_span_sq_eq(pos.z as int, tz);
            lemma_max_axis(ax, ay, az, d as int, dsq as int);
            if 2 * ax > d as int {
                lemma_span_sq_lt(pos.x as int, nx as int, tx);
                lemma_between_sq(pos.y as int, ny as int, ty);
                lemma_between_sq(pos.z as int, nz as int, tz);
            } else if 2 * ay > d as int {
                lemma_between_sq(pos.x as int, nx as int, tx);
                lemma_span_sq_lt(pos.y as int, ny as int, ty);
                lemma_between_sq(pos.z as int, nz as int, tz);
            } else {
                lemma_between_sq(pos.x as int, nx as int, tx);
                lemma_between_sq(pos.y as int, ny as int, ty);
                lemma_span_sq_lt(pos.z as int, nz as int, tz);
            }
        }
        (Vec3 { x: nx, y: ny, z: nz }, true)
    }
}

/// Whether the character is within the stop threshold of its target.
pub fn arrived(pos: &Vec3, target: &Vec3) -> (r: bool)
    requires
        pos.in_bounds(),
        target.in_bounds(),
    ensures
        r == arrived_spec(*pos, *target),
{
    let dsq = dist_sq(pos, target);
    dsq <= (STOP_DIST_MILLI * STOP_DIST_MILLI) as u64
}

/// A squared distance is never negative.
pub proof fn lemma_dist_sq_nonneg(a: Vec3, b: Vec3)
    ensures
        dist_sq_spec(a, b) >= 0,
{
    lemma_span_sq_eq(a.x as int, b.x as int);
    lemma_span_sq_eq(a.y as int, b.y as int);
    lemma_span_sq_eq(a.z as int, b.z as int);
    assert(span(a.x as int, b.x as int) * span(a.x as int, b.x as int) >= 0) by (nonlinear_arith)
        requires
            span(a.x as int, b.x as int) >= 0,
    ;
    assert(span(a.y as int, b.y as int) * span(a.y as int, b.y as int) >= 0) by (nonlinear_arith)
        requires
            span(a.y as int, b.y as int) >= 0,
    ;
    assert(span(a.z as int, b.z as int) * span(a.z as int, b.z as int) >= 0) by (nonlinear_arith)
        requires
            span(a.z as int, b.z as int) >= 0,
    ;
}

/// Stepping frame after frame always arrives: each moving frame strictly
/// shrinks the squared distance to the target, so the walk cannot go on
/// forever, and it only stops within the stop threshold.
pub fn walk_to(start: &Vec3, target: &Vec3) -> (p: Vec3)
    requires
        start.in_bounds(),
        target.in_bounds(),
    ensures
        arrived_spec(p, *target),
        p.in_bounds(),
{
    let mut pos = *start;
    loop
        invariant
            pos.in_bounds(),
            target.in_bounds(),
        decreases dist_sq_spec(pos, *target),
    {
        let (next, moving) = step_toward(&pos, target);
        if !moving {
            return pos;
        }
        proof {
            lemma_dist_sq_nonneg(next, *target);
        }
        pos = next;
    }
}

/// A point between two others, coordinate by coordinate, is no farther
/// from the second than the first is.
proof fn lemma_between_sq(o: int, m: int, t: int)
    requires
        between(o, m, t),
    ensures
        (t - m) * (t - m) <= (t - o) * (t - o),
{
    assert((t - m) * (t - m) <= (t - o) * (t - o)) by (nonlinear_arith)
        requires
            (o <= m <= t) || (t <= m <= o),
    ;
}

/// A locomotion step never increases the distance to the target: any
/// position that `step_toward` can return is at most as far from the
/// target as the position it started from.
pub proof fn lemma_step_never_increases_distance(pos: Vec3, stepped: Vec3, target: Vec3)
    requires
        between(pos.x as int, stepped.x as int, target.x as int),
        between(pos.y as int, stepped.y as int, target.y as int),
        between(pos.z as int, stepped.z as int, target.z as int),
    ensures
        dist_sq_spec(stepped, target) <= dist_sq_spec(pos, target),
{
    lemma_between_sq(pos.x as int, stepped.x as int, target.x as int);
    lemma_between_sq(pos.y as int, stepped.y as int, target.y as int);
    lemma_between_sq(pos.z as int, stepped.z as int, target.z as int);
}

} // verus!
