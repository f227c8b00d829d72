//! Exact integer geometry for the simulation.
//!
//! Headings are "diamond" angles: the full turn is `ANG_FULL` units and the
//! forward vector of a heading is piecewise linear in the heading, with
//! constant taxicab length `DIR_ONE`. Angle `0` points along `+Y` and the
//! angle grows counter-clockwise (`+Y -> -X -> -Y -> +X`). This keeps every
//! operation of the tick loop — integration, steering, overlap tests — in
//! exact integer arithmetic.

use vstd::prelude::*;

verus! {

/// Milliseconds per second; ticks measure time in milliseconds.
pub const MILLIS_PER_SEC: i64 = 1000;

/// Taxicab length of every forward vector.
pub const DIR_ONE: i64 = 1000;

/// A quarter turn in angle units.
pub const ANG_QUARTER: i64 = 1000;

/// A half turn in angle units.
pub const ANG_HALF: i64 = 2000;

/// A full turn in angle units; headings live in `[0, ANG_FULL)`.
pub const ANG_FULL: i64 = 4000;

/// Position subunits per world unit (`DIR_ONE * MILLIS_PER_SEC`), chosen so
/// that one tick of integration is the exact product
/// `forward component * speed * dt` with no rounding.
pub const POS_PER_UNIT: i64 = 1000000;

/// Largest magnitude a coordinate may take; integration clamps here.
pub const POS_LIMIT: i64 = 1000000000000000;

/// Largest linear speed, in world units per second.
pub const SPEED_MAX: i64 = 1000000;

/// Largest angular speed, in angle units per second.
pub const ROT_SPEED_MAX: i64 = 1000000000;

/// Largest sensor radius, in position subunits.
pub const RADIUS_MAX: i64 = 1000000000000;

/// Largest duration a timer may hold, in milliseconds.
pub const TIME_LIMIT: i64 = 1000000000000000;

/// Largest single tick, in milliseconds.
pub const DT_MAX: i64 = 60000;

/// Absolute value.
pub open spec fn abs_val(v: int) -> int {
    if v < 0 {
        -v
    } else {
        v
    }
}

/// Clamp `v` into `[lo, hi]`.
pub open spec fn spec_clamp(v: int, lo: int, hi: int) -> int {
    if v < lo {
        lo
    } else if v > hi {
        hi
    } else {
        v
    }
}

/// Clamp `v` into `[lo, hi]`.
pub fn clamp_i64(v: i64, lo: i64, hi: i64) -> (r: i64)
    requires
        lo <= hi,
    ensures
        r == spec_clamp(v as int, lo as int, hi as int),
{
    if v < lo {
        lo
    } else if v > hi {
        hi
    } else {
        v
    }
}

/// `X` component of the forward vector of heading `a`, for `a` in
/// `[0, ANG_FULL)`. Piecewise linear between the cardinal directions
/// `N(0, DIR_ONE)`, `W(-DIR_ONE, 0)`, `S(0, -DIR_ONE)`, `E(DIR_ONE, 0)`.
pub open spec fn dir_x(a: int) -> int {
    if a < ANG_QUARTER {
        -a
    } else if a < ANG_HALF {
        a - ANG_HALF
    } else if a < ANG_HALF + ANG_QUARTER {
        a - ANG_HALF
    } else {
        ANG_FULL - a
    }
}

/// `Y` component of the forward vector of heading `a`, for `a` in
/// `[0, ANG_FULL)`.
pub open spec fn dir_y(a: int) -> int {
    if a < ANG_QUARTER {
        ANG_QUARTER - a
    } else if a < ANG_HALF {
        ANG_QUARTER - a
    } else if a < ANG_HALF + ANG_QUARTER {
        a - (ANG_HALF + ANG_QUARTER)
    } else {
        a - (ANG_HALF + ANG_QUARTER)
    }
}

/// Whether `a` is a heading the model accepts.
pub open spec fn valid_angle(a: int) -> bool {
    0 <= a < ANG_FULL
}

/// The forward vector of a heading: both components in
/// `[-DIR_ONE, DIR_ONE]`, taxicab length exactly `DIR_ONE`.
pub fn forward_vec(a: i64) -> (v: (i64, i64))
    requires
        valid_angle(a as int),
    ensures
        v.0 == dir_x(a as int),
        v.1 == dir_y(a as int),
{
    if a < ANG_QUARTER {
        (-a, ANG_QUARTER - a)
    } else if a < ANG_HALF {
        (a - ANG_HALF, ANG_QUARTER - a)
    } else if a < ANG_HALF + ANG_QUARTER {
        (a - ANG_HALF, a - (ANG_HALF + ANG_QUARTER))
    } else {
        (ANG_FULL - a, a - (ANG_HALF + ANG_QUARTER))
    }
}

/// The forward vector has taxicab length exactly `DIR_ONE`, so speed is
/// distributed exactly over the two axes whatever the heading.
pub proof fn lemma_dir_taxicab_unit(a: int)
    requires
        valid_angle(a),
    ensures
        abs_val(dir_x(a)) + abs_val(dir_y(a)) == DIR_ONE,
        -DIR_ONE <= dir_x(a) <= DIR_ONE,
        -DIR_ONE <= dir_y(a) <= DIR_ONE,
{
}

/// Bring `a` back into `[0, ANG_FULL)` after adding a rotation step.
pub open spec fn wrap_angle(a: int) -> int {
    if a < 0 {
        a + ANG_FULL
    } else if a >= ANG_FULL {
        a - ANG_FULL
    } else {
        a
    }
}

/// Signed difference `d` normalized into `[-ANG_HALF, ANG_HALF)`, for raw
/// differences in `(-ANG_FULL, ANG_FULL)`. A difference of exactly half a
/// turn normalizes to `-ANG_HALF`: a target straight behind is reached by
/// rotating clockwise.
pub open spec fn norm_signed(d: int) -> int {
    if d >= ANG_HALF {
        d - ANG_FULL
    } else if d < -ANG_HALF {
        d + ANG_FULL
    } else {
        d
    }
}

/// Shortest signed rotation from heading `h` to heading `g`, in
/// `[-ANG_HALF, ANG_HALF)`; positive is counter-clockwise.
pub open spec fn ang_diff(g: int, h: int) -> int {
    norm_signed(g - h)
}

/// Heading `h` rotated toward heading `g` by at most `m` angle units,
/// never past `g`: a no-op when already aligned, else the shorter way
/// around by `min(|difference|, m)`.
pub open spec fn steer_spec(h: int, g: int, m: int) -> int {
    let d = ang_diff(g, h);
    if d == 0 {
        h
    } else {
        let step = if abs_val(d) <= m {
            abs_val(d)
        } else {
            m
        };
        if d > 0 {
            wrap_angle(h + step)
        } else {
            wrap_angle(h - step)
        }
    }
}

/// Rotate heading `h` toward heading `g` by at most `m` angle units.
pub fn steer_heading(h: i64, g: i64, m: i64) -> (r: i64)
    requires
        valid_angle(h as int),
        valid_angle(g as int),
        0 <= m,
    ensures
        r == steer_spec(h as int, g as int, m as int),
        valid_angle(r as int),
{
    let raw: i64 = g - h;
    let d: i64 = if raw >= ANG_HALF {
        raw - ANG_FULL
    } else if raw < -ANG_HALF {
        raw + ANG_FULL
    } else {
        raw
    };
    if d == 0 {
        return h;
    }
    let mag: i64 = if d < 0 {
        -d
    } else {
        d
    };
    let step: i64 = if mag <= m {
        mag
    } else {
        m
    };
    let moved: i64 = if d > 0 {
        h + step
    } else {
        h - step
    };
    if moved < 0 {
        moved + ANG_FULL
    } else if moved >= ANG_FULL {
        moved - ANG_FULL
    } else {
        moved
    }
}

/// The steering clamp: one bounded rotation toward the target shrinks the
/// angle difference by exactly the allowed step, to no less than zero —
/// the pursuer never overshoots past facing the target.
pub proof fn lemma_steer_clamp(h: int, g: int, m: int)
    requires
        valid_angle(h),
        valid_angle(g),
        0 <= m,
    ensures
        valid_angle(steer_spec(h, g, m)),
        abs_val(ang_diff(g, steer_spec(h, g, m))) == if abs_val(ang_diff(g, h)) - m >= 0 {
            abs_val(ang_diff(g, h)) - m
        } else {
            0
        },
{
}

/// The heading whose forward vector points from the origin along `(x, y)`:
/// the exact inverse of the forward map, quadrant by quadrant, using one
/// flooring division. Meaningful for `(x, y) != (0, 0)`.
pub open spec fn angle_of(x: int, y: int) -> int {
    let ax = abs_val(x);
    let ay = abs_val(y);
    let s = ax + ay;
    if x <= 0 && y > 0 {
        (ANG_QUARTER * ax) / s
    } else if x < 0 && y <= 0 {
        ANG_QUARTER + (ANG_QUARTER * ay) / s
    } else if x >= 0 && y < 0 {
        ANG_HALF + (ANG_QUARTER * ax) / s
    } else {
        ANG_HALF + ANG_QUARTER + (ANG_QUARTER * ay) / s
    }
}

/// The heading toward the point `(x, y)` seen from the origin.
pub fn angle_to(x: i64, y: i64) -> (a: i64)
    requires
        !(x == 0 && y == 0),
        -(2 * POS_LIMIT) <= x <= 2 * POS_LIMIT,
        -(2 * POS_LIMIT) <= y <= 2 * POS_LIMIT,
    ensures
        a == angle_of(x as int, y as int),
        valid_angle(a as int),
{
    let ax: i64 = if x < 0 {
        -x
    } else {
        x
    };
    let ay: i64 = if y < 0 {
        -y
    } else {
        y
    };
    let s: i64 = ax + ay;
    proof {
        lemma_quarter_div(ax as int, ay as int);
        lemma_quarter_div(ay as int, ax as int);
    }
    if x <= 0 && y > 0 {
        (ANG_QUARTER * ax) / s
    } else if x < 0 && y <= 0 {
        ANG_QUARTER + (ANG_QUARTER * ay) / s
    } else if x >= 0 && y < 0 {
        ANG_HALF + (ANG_QUARTER * ax) / s
    } else {
        ANG_HALF + ANG_QUARTER + (ANG_QUARTER * ay) / s
    }
}

/// The quadrant-local division stays inside a quarter turn.
proof fn lemma_quarter_div(u: int, v: int)
    requires
        0 <= u,
        0 <= v,
        0 < u + v,
    ensures
        0 <= (ANG_QUARTER * u) / (u + v),
        v > 0 ==> (ANG_QUARTER * u) / (u + v) < ANG_QUARTER,
        v == 0 ==> (ANG_QUARTER * u) / (u + v) == ANG_QUARTER,
{
    let s = u + v;
    assert(0 <= (ANG_QUARTER * u) / s) by (nonlinear_arith)
        requires
            0 <= u,
            0 < s,
    ;
    if v > 0 {
        assert((ANG_QUARTER * u) / s < ANG_QUARTER) by (nonlinear_arith)
            requires
                0 <= u,
                0 < v,
                s == u + v,
        ;
    }
    if v == 0 {
        assert((ANG_QUARTER * u) / s == ANG_QUARTER) by (nonlinear_arith)
            requires
                0 < u,
                s == u,
        ;
    }
}

/// Any direction at all resolves to a real heading.
pub proof fn lemma_angle_of_valid(x: int, y: int)
    requires
        !(x == 0 && y == 0),
    ensures
        valid_angle(angle_of(x, y)),
{
    let ax = abs_val(x);
    let ay = abs_val(y);
    if x <= 0 && y > 0 {
        lemma_quarter_div(ax, ay);
    } else if x < 0 && y <= 0 {
        lemma_quarter_div(ay, ax);
    } else if x >= 0 && y < 0 {
        lemma_quarter_div(ax, ay);
    } else {
        lemma_quarter_div(ay, ax);
    }
}

/// The angle toward a point on the forward ray of a heading is that
/// heading: the two maps invert each other exactly.
pub proof fn lemma_angle_of_dir(a: int)
    requires
        valid_angle(a),
    ensures
        angle_of(dir_x(a), dir_y(a)) == a,
{
    if a < ANG_QUARTER {
        assert((ANG_QUARTER * a) / (ANG_QUARTER as int) == a);
    } else if a < ANG_HALF {
        assert((ANG_QUARTER * (a - ANG_QUARTER)) / (ANG_QUARTER as int) == a - ANG_QUARTER);
    } else if a < ANG_HALF + ANG_QUARTER {
        assert((ANG_QUARTER * (a - ANG_HALF)) / (ANG_QUARTER as int) == a - ANG_HALF);
    } else {
        assert((ANG_QUARTER * (a - (ANG_HALF + ANG_QUARTER))) / (ANG_QUARTER as int) == a - (
        ANG_HALF + ANG_QUARTER));
    }
}

/// Whether two circles of radii `r1`, `r2` at the given centres overlap:
/// strictly closer than the sum of the radii. Touching exactly does not
/// count as overlap.
pub open spec fn circles_overlap(x1: int, y1: int, x2: int, y2: int, r1: int, r2: int) -> bool {
    let dx = x1 - x2;
    let dy = y1 - y2;
    dx * dx + dy * dy < (r1 + r2) * (r1 + r2)
}

/// Circle-overlap test, exact in integers.
pub fn overlap(x1: i64, y1: i64, x2: i64, y2: i64, r1: i64, r2: i64) -> (b: bool)
    requires
        -POS_LIMIT <= x1 <= POS_LIMIT,
        -POS_LIMIT <= y1 <= POS_LIMIT,
        -POS_LIMIT <= x2 <= POS_LIMIT,
        -POS_LIMIT <= y2 <= POS_LIMIT,
        0 <= r1 <= RADIUS_MAX,
        0 <= r2 <= RADIUS_MAX,
    ensures
        b == circles_overlap(x1 as int, y1 as int, x2 as int, y2 as int, r1 as int, r2 as int),
{
    let dx: i128 = (x1 as i128) - (x2 as i128);
    let dy: i128 = (y1 as i128) - (y2 as i128);
    let rr: i128 = (r1 as i128) + (r2 as i128);
    proof {
        lemma_square_bound(dx as int, 2 * POS_LIMIT as int);
        lemma_square_bound(dy as int, 2 * POS_LIMIT as int);
        lemma_square_bound(rr as int, 2 * RADIUS_MAX as int);
    }
    dx * dx + dy * dy < rr * rr
}

/// A bounded value has a bounded square.
proof fn lemma_square_bound(v: int, b: int)
    requires
        -b <= v <= b,
        0 <= b,
    ensures
        0 <= v * v <= b * b,
    decreases 0int,
{
    assert(0 <= v * v <= b * b) by (nonlinear_arith)
        requires
            -b <= v <= b,
            0 <= b,
    ;
}

/// A collision happens strictly below the sum of the radii: centres whose
/// squared distance equals the squared sum do not overlap, and any smaller
/// squared distance does.
pub proof fn lemma_collision_threshold(x1: int, y1: int, x2: int, y2: int, r1: int, r2: int)
    ensures
        (x1 - x2) * (x1 - x2) + (y1 - y2) * (y1 - y2) == (r1 + r2) * (r1 + r2) ==> !circles_overlap(
            x1,
            y1,
            x2,
            y2,
            r1,
            r2,
        ),
        (x1 - x2) * (x1 - x2) + (y1 - y2) * (y1 - y2) < (r1 + r2) * (r1 + r2) ==> circles_overlap(
            x1,
            y1,
            x2,
            y2,
            r1,
            r2,
        ),
{
}

} // verus!
