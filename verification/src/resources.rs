//! Process-wide singleton resources: the aim position in world
//! coordinates, the wave spawner's state, and the arena bounds.

use vstd::prelude::*;
use crate::math::{POS_LIMIT, POS_PER_UNIT, TIME_LIMIT};

verus! {

/// Half-extent of the playfield along `X`, in position subunits: the
/// player is kept inside `[-BOUND_HALF_X, BOUND_HALF_X]`.
pub const BOUND_HALF_X: i64 = 600 * POS_PER_UNIT;

/// Half-extent of the playfield along `Y`.
pub const BOUND_HALF_Y: i64 = 320 * POS_PER_UNIT;

/// Seconds-per-wave cycle, in milliseconds.
pub const ROUND_LENGTH: i64 = 10000;

/// Enemies of the first wave.
pub const ROUND_START_ENEMIES: u32 = 10;

/// The last position the aim input resolved to, in world coordinates.
#[derive(Clone, Copy, PartialEq, Eq, Structural, Debug)]
pub struct MouseWorldPos {
    pub x: i64,
    pub y: i64,
}

/// The wave spawner's state: the cycle counter, the cycle length and the
/// time remaining in it (milliseconds), and how many enemies the next
/// cycle start spawns.
#[derive(Clone, Copy, PartialEq, Eq, Structural, Debug)]
pub struct RoundParams {
    pub round: u32,
    pub length: i64,
    pub countdown: i64,
    pub enemies: u32,
}

/// The spawner state a tick keeps: the countdown never leaves
/// `(0, length]`.
pub open spec fn wf_round(r: RoundParams) -> bool {
    &&& 0 < r.length <= TIME_LIMIT
    &&& 0 < r.countdown <= r.length
}

impl RoundParams {
    /// The state a fresh game starts with: `countdown == length`, so the
    /// first wave spawns on the very first tick.
    pub fn initial() -> (r: RoundParams)
        ensures
            r.round == 1,
            r.length == ROUND_LENGTH,
            r.countdown == ROUND_LENGTH,
            r.enemies == ROUND_START_ENEMIES,
            wf_round(r),
    {
        RoundParams { round: 1, length: ROUND_LENGTH, countdown: ROUND_LENGTH, enemies: ROUND_START_ENEMIES }
    }
}

/// An aim position the simulation accepts.
pub open spec fn valid_mouse(m: MouseWorldPos) -> bool {
    &&& -POS_LIMIT <= m.x <= POS_LIMIT
    &&& -POS_LIMIT <= m.y <= POS_LIMIT
}

} // verus!
