//! Components an entity may carry, and the ranges their fields must stay in
//! so that a tick never overflows.

use vstd::prelude::*;
use crate::math::{DT_MAX, POS_LIMIT, RADIUS_MAX, ROT_SPEED_MAX, SPEED_MAX, TIME_LIMIT, valid_angle};

verus! {

/// Interaction radius for circular overlap tests, in position subunits.
#[derive(Clone, Copy, PartialEq, Eq, Structural, Debug)]
pub struct Sensor {
    pub radius: i64,
}

/// Marks the player entity.
#[derive(Clone, Copy, PartialEq, Eq, Structural, Debug)]
pub struct Player;

/// Marks a hostile entity.
#[derive(Clone, Copy, PartialEq, Eq, Structural, Debug)]
pub struct Enemy;

/// Marks a projectile fired by the player.
#[derive(Clone, Copy, PartialEq, Eq, Structural, Debug)]
pub struct Bullet;

/// Marks an entity whose death has already been resolved.
#[derive(Clone, Copy, PartialEq, Eq, Structural, Debug)]
pub struct Dead;

/// Refractory timer gating repeated damage, in milliseconds. While
/// `time_remains > 0` the owner is immune to the gated damage source.
#[derive(Clone, Copy, PartialEq, Eq, Structural, Debug)]
pub struct HitCooldown {
    pub time_full: i64,
    pub time_remains: i64,
}

/// Hit points; the owner counts as dead at zero or below.
#[derive(Clone, Copy, PartialEq, Eq, Structural, Debug)]
pub struct Health(pub i64);

/// Linear speed along the forward direction, in world units per second.
#[derive(Clone, Copy, PartialEq, Eq, Structural, Debug)]
pub struct Move {
    pub speed: i64,
}

/// Angular speed bounding how fast the owner may turn toward the player,
/// in angle units per second.
#[derive(Clone, Copy, PartialEq, Eq, Structural, Debug)]
pub struct RotateToPlayer {
    pub speed: i64,
}

/// Time-to-live, in milliseconds: the owner is destroyed once
/// `elapsed_time > max_time`.
#[derive(Clone, Copy, PartialEq, Eq, Structural, Debug)]
pub struct Decay {
    pub max_time: i64,
    pub elapsed_time: i64,
}

/// 2D position plus heading. Coordinates are in position subunits and stay
/// in `[-POS_LIMIT, POS_LIMIT]`; the heading is an angle in `[0, ANG_FULL)`.
#[derive(Clone, Copy, PartialEq, Eq, Structural, Debug)]
pub struct Transform2 {
    pub x: i64,
    pub y: i64,
    pub heading: i64,
}

/// Field ranges under which a transform never overflows a tick.
pub open spec fn valid_transform(t: Transform2) -> bool {
    &&& -POS_LIMIT <= t.x <= POS_LIMIT
    &&& -POS_LIMIT <= t.y <= POS_LIMIT
    &&& valid_angle(t.heading as int)
}

/// Field ranges under which a sensor never overflows an overlap test.
pub open spec fn valid_sensor(s: Sensor) -> bool {
    0 <= s.radius <= RADIUS_MAX
}

/// Field ranges under which integration never overflows.
pub open spec fn valid_move(m: Move) -> bool {
    0 <= m.speed <= SPEED_MAX
}

/// Field ranges under which a steering step never overflows.
pub open spec fn valid_rotate(r: RotateToPlayer) -> bool {
    0 <= r.speed <= ROT_SPEED_MAX
}

/// `time_remains` only ever counts down from `time_full` by at most one
/// tick past zero, or is reset to `time_full`.
pub open spec fn valid_cooldown(c: HitCooldown) -> bool {
    &&& 0 <= c.time_full <= TIME_LIMIT
    &&& -DT_MAX <= c.time_remains <= c.time_full
}

/// `elapsed_time` grows by at most one tick past `max_time` before the
/// owner is destroyed.
pub open spec fn valid_decay(d: Decay) -> bool {
    &&& 0 <= d.max_time <= TIME_LIMIT
    &&& 0 <= d.elapsed_time <= TIME_LIMIT + DT_MAX
}

/// Hit points stay far from the integer limits.
pub open spec fn valid_health(h: Health) -> bool {
    -TIME_LIMIT <= h.0 <= TIME_LIMIT
}

} // verus!
