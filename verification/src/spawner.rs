//! The wave spawner: on a countdown it creates escalating batches of
//! enemies at random positions inside the spawn rectangle.
//!
//! The spawn trigger is exact equality `countdown == length`, true at
//! cycle start only — including the very first tick after
//! initialization, because a fresh `RoundParams` starts with
//! `countdown == length`. When the countdown runs out it refills, the
//! cycle counter steps, and the wave size grows by a factor of six
//! fifths, rounded up.

use vstd::prelude::*;
use crate::commands::{CommandBuffer, SpawnRequest, wf_cmds};
use crate::components::Transform2;
use crate::math::{ANG_FULL, DT_MAX, POS_PER_UNIT, valid_angle};
use crate::prefabs::{enemy_bundle, spec_enemy_bundle};
use crate::resources::{RoundParams, wf_round};
use vstd::arithmetic::div_mod::lemma_fundamental_div_mod;

verus! {

/// Half-extent of the enemy spawn rectangle along `X`, position
/// subunits.
pub const SPAWN_HALF_X: i64 = 600 * POS_PER_UNIT;

/// Half-extent of the enemy spawn rectangle along `Y`.
pub const SPAWN_HALF_Y: i64 = 300 * POS_PER_UNIT;

/// Where one spawned enemy starts: a position and an initial heading.
#[derive(Clone, Copy, PartialEq, Eq, Structural, Debug)]
pub struct Placement {
    pub x: i64,
    pub y: i64,
    pub heading: i64,
}

/// A placement inside the spawn rectangle with a real heading.
pub open spec fn valid_placement(p: Placement) -> bool {
    &&& -SPAWN_HALF_X <= p.x < SPAWN_HALF_X
    &&& -SPAWN_HALF_Y <= p.y < SPAWN_HALF_Y
    &&& valid_angle(p.heading as int)
}

/// Relies on `rand::Rng::gen_range` on a half-open `i64` range: it
/// panics on an empty range, else returns a value in `[lo, hi)`.
#[verifier::external_body]
fn rand_range(lo: i64, hi: i64) -> (r: i64)
    requires
        lo < hi,
    ensures
        lo <= r < hi,
{
    rand::Rng::gen_range(&mut rand::thread_rng(), lo..hi)
}

/// A random point with each coordinate drawn from its half-open range.
pub fn random_2d(x_lo: i64, x_hi: i64, y_lo: i64, y_hi: i64) -> (p: (i64, i64))
    requires
        x_lo < x_hi,
        y_lo < y_hi,
    ensures
        x_lo <= p.0 < x_hi,
        y_lo <= p.1 < y_hi,
{
    (rand_range(x_lo, x_hi), rand_range(y_lo, y_hi))
}

/// Draw `n` random placements inside the spawn rectangle.
pub fn draw_placements(n: u32) -> (ps: Vec<Placement>)
    ensures
        ps@.len() == n,
        forall|i: int| 0 <= i < ps@.len() ==> valid_placement(#[trigger] ps@[i]),
{
    let mut ps: Vec<Placement> = Vec::new();
    let mut k: u32 = 0;
    while k < n
        invariant
            0 <= k <= n,
            ps@.len() == k,
            forall|i: int| 0 <= i < ps@.len() ==> valid_placement(#[trigger] ps@[i]),
        decreases n - k,
    {
        let (x, y) = random_2d(-SPAWN_HALF_X, SPAWN_HALF_X, -SPAWN_HALF_Y, SPAWN_HALF_Y);
        let heading = rand_range(0, ANG_FULL);
        ps.push(Placement { x, y, heading });
        k = k + 1;
    }
    ps
}

/// The next wave size: six fifths of the current one, rounded up — the
/// ceiling applied at this one step, not over a closed form. The count
/// saturates only at the limit of its integer type.
pub open spec fn spec_grown(n: int) -> int {
    let g = (6 * n + 4) / 5;
    if g > u32::MAX {
        u32::MAX as int
    } else {
        g
    }
}

/// Grow the wave size for the next cycle.
pub fn grow_enemies(n: u32) -> (r: u32)
    ensures
        r == spec_grown(n as int),
{
    let g: u64 = (6 * (n as u64) + 4) / 5;
    if g > u32::MAX as u64 {
        u32::MAX
    } else {
        g as u32
    }
}

/// Wave growth never shrinks, and is strict as long as the count is
/// representable: once a wave holds at least one enemy, the next wave is
/// strictly larger, up to the limit of the count's integer type.
pub proof fn lemma_wave_growth(n: int)
    requires
        1 <= n <= u32::MAX,
    ensures
        n < u32::MAX ==> spec_grown(n) > n,
        spec_grown(n) >= n,
        spec_grown(n) <= u32::MAX,
{
    lemma_fundamental_div_mod(6 * n + 4, 5);
}

/// The spawner state after one tick: the countdown falls by `dt`; when
/// it runs out it refills to the cycle length, the cycle counter steps
/// (saturating), and the wave size grows.
pub open spec fn spec_round_tick(r: RoundParams, dt: int) -> RoundParams {
    let c = r.countdown - dt;
    if c <= 0 {
        RoundParams {
            round: if r.round < u32::MAX {
                (r.round + 1) as u32
            } else {
                r.round
            },
            length: r.length,
            countdown: r.length,
            enemies: spec_grown(r.enemies as int) as u32,
        }
    } else {
        RoundParams { round: r.round, length: r.length, countdown: c as i64, enemies: r.enemies }
    }
}

/// How many enemies this tick spawns: a full wave exactly at cycle
/// start, none otherwise.
pub open spec fn spawn_count(r: RoundParams) -> int {
    if r.countdown == r.length {
        r.enemies as int
    } else {
        0
    }
}

/// The spawn request one placement becomes.
pub open spec fn enemy_request(p: Placement) -> SpawnRequest {
    SpawnRequest {
        proto: spec_enemy_bundle(Transform2 { x: p.x, y: p.y, heading: p.heading }),
        parent_spawn: None,
    }
}

/// Record one enemy spawn per placement.
fn spawn_wave(cmds: &mut CommandBuffer, placements: &Vec<Placement>)
    requires
        wf_cmds(*old(cmds)),
        forall|i: int| 0 <= i < placements@.len() ==> valid_placement(#[trigger] placements@[i]),
    ensures
        final(cmds).spawns@ == old(cmds).spawns@ + placements@.map_values(
            |p: Placement| enemy_request(p),
        ),
        final(cmds).despawns@ == old(cmds).despawns@,
        final(cmds).remove_moves@ == old(cmds).remove_moves@,
        final(cmds).mark_dead@ == old(cmds).mark_dead@,
        wf_cmds(*final(cmds)),
{
    let ghost sp0 = cmds.spawns@;
    let n = placements.len();
    let mut k: usize = 0;
    while k < n
        invariant
            wf_cmds(*cmds),
            forall|i: int|
                0 <= i < placements@.len() ==> valid_placement(#[trigger] placements@[i]),
            n == placements@.len(),
            0 <= k <= n,
            cmds.spawns@ == sp0 + placements@.take(k as int).map_values(
                |p: Placement| enemy_request(p),
            ),
            cmds.despawns@ == old(cmds).despawns@,
            cmds.remove_moves@ == old(cmds).remove_moves@,
            cmds.mark_dead@ == old(cmds).mark_dead@,
        decreases n - k,
    {
        let p = placements[k];
        let proto = enemy_bundle(Transform2 { x: p.x, y: p.y, heading: p.heading });
        cmds.spawns.push(SpawnRequest { proto, parent_spawn: None });
        proof {
            assert(cmds.spawns@ =~= sp0 + placements@.take(k + 1).map_values(
                |p: Placement| enemy_request(p),
            ));
        }
        k = k + 1;
    }
    proof {
        assert(placements@.take(n as int) =~= placements@);
    }
}

/// One spawner tick. Exactly at cycle start (`countdown == length`) it
/// records one enemy spawn per placement — the caller hands as many
/// placements as the wave holds, and none otherwise. Every tick the
/// countdown falls by `dt`; when it runs out the cycle rolls over and
/// the wave grows.
pub fn enemy_system(
    round: &mut RoundParams,
    cmds: &mut CommandBuffer,
    placements: &Vec<Placement>,
    dt: i64,
)
    requires
        wf_round(*old(round)),
        wf_cmds(*old(cmds)),
        0 <= dt <= DT_MAX,
        placements@.len() == spawn_count(*old(round)),
        forall|i: int| 0 <= i < placements@.len() ==> valid_placement(#[trigger] placements@[i]),
    ensures
        *final(round) == spec_round_tick(*old(round), dt as int),
        wf_round(*final(round)),
        final(cmds).spawns@ == old(cmds).spawns@ + placements@.map_values(
            |p: Placement| enemy_request(p),
        ),
        final(cmds).despawns@ == old(cmds).despawns@,
        final(cmds).remove_moves@ == old(cmds).remove_moves@,
        final(cmds).mark_dead@ == old(cmds).mark_dead@,
        wf_cmds(*final(cmds)),
{
    if round.countdown == round.length {
        spawn_wave(cmds, placements);
    } else {
        assert(cmds.spawns@ =~= cmds.spawns@ + placements@.map_values(
            |p: Placement| enemy_request(p),
        ));
    }
    round.countdown = round.countdown - dt;
    if round.countdown <= 0 {
        round.countdown = round.length;
        if round.round < u32::MAX {
            round.round = round.round + 1;
        }
        proof {
            if round.enemies >= 1 {
                lemma_wave_growth(round.enemies as int);
            }
        }
        round.enemies = grow_enemies(round.enemies);
    }
}

} // verus!
