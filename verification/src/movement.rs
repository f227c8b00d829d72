//! The movement integrator and the steering controller.
//!
//! Integration advances every moving entity (except the intent-driven
//! player) by exactly `forward component * speed * dt` per axis, clamped
//! into the coordinate range. Steering rotates every pursuer toward the
//! player's position by at most its angular speed times `dt`, never past
//! facing it.

use vstd::prelude::*;
use crate::components::{Transform2, valid_transform};
use crate::math::{DIR_ONE, DT_MAX, MILLIS_PER_SEC, POS_LIMIT, ROT_SPEED_MAX, SPEED_MAX, abs_val, ang_diff, angle_of, angle_to, clamp_i64, dir_x, dir_y, forward_vec, lemma_angle_of_valid, lemma_steer_clamp, spec_clamp, steer_heading, steer_spec};
use crate::world::{Entity, World, find_player, lemma_wf_map, player_index, valid_entity, wf_world};

verus! {

/// A transform advanced along its heading for `dt` milliseconds: each
/// axis moves by exactly the forward component times speed times `dt`,
/// clamped into the coordinate range; the heading does not change.
pub open spec fn moved_transform(t: Transform2, speed: int, dt: int) -> Transform2 {
    Transform2 {
        x: spec_clamp(
            t.x + dir_x(t.heading as int) * speed * dt,
            -(POS_LIMIT as int),
            POS_LIMIT as int,
        ) as i64,
        y: spec_clamp(
            t.y + dir_y(t.heading as int) * speed * dt,
            -(POS_LIMIT as int),
            POS_LIMIT as int,
        ) as i64,
        heading: t.heading,
    }
}

/// What integration does to one entity: entities with `Move` (except the
/// player, which is moved by intent) advance; everything else is left
/// alone.
pub open spec fn moved_entity(e: Entity, dt: int) -> Entity {
    if e.mv is Some && !(e.player is Some) {
        Entity { transform: moved_transform(e.transform, e.mv->0.speed as int, dt), ..e }
    } else {
        e
    }
}

/// A displacement over one tick is bounded, so integration cannot
/// overflow.
proof fn lemma_disp_bound(d: int, s: int, t: int)
    requires
        -DIR_ONE <= d <= DIR_ONE,
        0 <= s <= SPEED_MAX,
        0 <= t <= DT_MAX,
    ensures
        -(DIR_ONE * SPEED_MAX) <= d * s <= DIR_ONE * SPEED_MAX,
        -(DIR_ONE * SPEED_MAX * DT_MAX) <= d * s * t <= DIR_ONE * SPEED_MAX * DT_MAX,
{
    assert(-(DIR_ONE * SPEED_MAX) <= d * s <= DIR_ONE * SPEED_MAX) by (nonlinear_arith)
        requires
            -DIR_ONE <= d <= DIR_ONE,
            0 <= s <= SPEED_MAX,
    ;
    assert(-(DIR_ONE * SPEED_MAX * DT_MAX) <= (d * s) * t <= DIR_ONE * SPEED_MAX * DT_MAX)
        by (nonlinear_arith)
        requires
            -(DIR_ONE * SPEED_MAX) <= d * s <= DIR_ONE * SPEED_MAX,
            0 <= t <= DT_MAX,
    ;
}

/// Advance one axis: the position moves by exactly `d * speed * dt`,
/// clamped into the coordinate range.
fn integrate_axis(p: i64, d: i64, speed: i64, dt: i64) -> (r: i64)
    requires
        -POS_LIMIT <= p <= POS_LIMIT,
        -DIR_ONE <= d <= DIR_ONE,
        0 <= speed <= SPEED_MAX,
        0 <= dt <= DT_MAX,
    ensures
        r as int == spec_clamp(p + d * speed * dt, -(POS_LIMIT as int), POS_LIMIT as int),
        -POS_LIMIT <= r <= POS_LIMIT,
{
    proof {
        lemma_disp_bound(d as int, speed as int, dt as int);
    }
    let disp: i64 = d * speed * dt;
    clamp_i64(p + disp, -POS_LIMIT, POS_LIMIT)
}

/// Advance every moving entity except the player along its heading.
pub fn move_system(w: &mut World, dt: i64)
    requires
        wf_world(*old(w)),
        0 <= dt <= DT_MAX,
    ensures
        final(w).entities@ == old(w).entities@.map_values(
            |e: Entity| moved_entity(e, dt as int),
        ),
        final(w).next_id == old(w).next_id,
        wf_world(*final(w)),
{
    let ghost w0 = *w;
    let ghost s0 = w.entities@;
    let n = w.entities.len();
    let mut i: usize = 0;
    while i < n
        invariant
            wf_world(w0),
            s0 == w0.entities@,
            0 <= dt <= DT_MAX,
            n == s0.len(),
            w.entities@.len() == n,
            w.next_id == w0.next_id,
            0 <= i <= n,
            forall|j: int| 0 <= j < i ==> #[trigger] w.entities@[j] == moved_entity(s0[j], dt as int),
            forall|j: int| i <= j < n ==> #[trigger] w.entities@[j] == s0[j],
        decreases n - i,
    {
        let e = w.entities[i];
        if e.mv.is_some() && e.player.is_none() {
            let speed = e.mv.unwrap().speed;
            let (fx, fy) = forward_vec(e.transform.heading);
            let nx = integrate_axis(e.transform.x, fx, speed, dt);
            let ny = integrate_axis(e.transform.y, fy, speed, dt);
            let mut e2 = e;
            e2.transform = Transform2 { x: nx, y: ny, heading: e.transform.heading };
            w.entities.set(i, e2);
            assert(e2 == moved_entity(s0[i as int], dt as int));
        } else {
            assert(e == moved_entity(s0[i as int], dt as int));
        }
        i = i + 1;
    }
    proof {
        assert(w.entities@ =~= s0.map_values(|e: Entity| moved_entity(e, dt as int)));
        lemma_wf_map(w0, *w);
    }
}

/// The integrator's law, away from the coordinate clamp: the position
/// advances by exactly the forward component times `speed` times `dt` on
/// each axis, and the heading is untouched.
pub proof fn lemma_integration_exact(t: Transform2, speed: int, dt: int)
    requires
        valid_transform(t),
        -(POS_LIMIT as int) <= t.x + dir_x(t.heading as int) * speed * dt <= POS_LIMIT as int,
        -(POS_LIMIT as int) <= t.y + dir_y(t.heading as int) * speed * dt <= POS_LIMIT as int,
    ensures
        moved_transform(t, speed, dt).x == t.x + dir_x(t.heading as int) * speed * dt,
        moved_transform(t, speed, dt).y == t.y + dir_y(t.heading as int) * speed * dt,
        moved_transform(t, speed, dt).heading == t.heading,
{
}

/// Frame-rate independence of integration, away from the coordinate
/// clamp: two sub-ticks of `t1` and `t2` milliseconds land exactly where
/// one tick of `t1 + t2` milliseconds lands.
pub proof fn lemma_integration_additive(t: Transform2, speed: int, t1: int, t2: int)
    requires
        valid_transform(t),
        0 <= t1,
        0 <= t2,
        -(POS_LIMIT as int) <= t.x + dir_x(t.heading as int) * speed * t1 <= POS_LIMIT as int,
        -(POS_LIMIT as int) <= t.y + dir_y(t.heading as int) * speed * t1 <= POS_LIMIT as int,
        -(POS_LIMIT as int) <= t.x + dir_x(t.heading as int) * speed * (t1 + t2) <= POS_LIMIT
            as int,
        -(POS_LIMIT as int) <= t.y + dir_y(t.heading as int) * speed * (t1 + t2) <= POS_LIMIT
            as int,
    ensures
        moved_transform(moved_transform(t, speed, t1), speed, t2) == moved_transform(
            t,
            speed,
            t1 + t2,
        ),
{
    let dx = dir_x(t.heading as int);
    let dy = dir_y(t.heading as int);
    assert(dx * speed * (t1 + t2) == dx * speed * t1 + dx * speed * t2) by (nonlinear_arith);
    assert(dy * speed * (t1 + t2) == dy * speed * t1 + dy * speed * t2) by (nonlinear_arith);
}

/// The rotation a steering step allows: angular speed times `dt`,
/// converted from per-second to the tick's milliseconds, rounded down.
pub open spec fn rot_step(speed: int, dt: int) -> int {
    (speed * dt) / (MILLIS_PER_SEC as int)
}

/// What one steering tick does to one entity, given the player's position
/// `(px, py)`: a pursuer (not the player itself, and not one standing
/// exactly on the player, whose target direction is undefined) turns
/// toward the player by at most its allowed step.
pub open spec fn rotated_entity(e: Entity, px: int, py: int, dt: int) -> Entity {
    if e.rotate is Some && !(e.player is Some) && !(px == e.transform.x && py == e.transform.y) {
        let g = angle_of(px - e.transform.x, py - e.transform.y);
        let h = steer_spec(e.transform.heading as int, g, rot_step(e.rotate->0.speed as int, dt));
        Entity {
            transform: Transform2 { x: e.transform.x, y: e.transform.y, heading: h as i64 },
            ..e
        }
    } else {
        e
    }
}

/// What one steering tick does to the whole table: a no-op when no player
/// exists, else every pursuer turns toward the player's current position.
pub open spec fn rotate_all(s: Seq<Entity>, dt: int) -> Seq<Entity> {
    let pi = player_index(s);
    if pi == -1 {
        s
    } else {
        s.map_values(
            |e: Entity| rotated_entity(e, s[pi].transform.x as int, s[pi].transform.y as int, dt),
        )
    }
}

/// The allowed steering step is within range.
proof fn lemma_rot_step_bound(speed: int, dt: int)
    requires
        0 <= speed <= ROT_SPEED_MAX,
        0 <= dt <= DT_MAX,
    ensures
        0 <= speed * dt <= ROT_SPEED_MAX * DT_MAX,
        0 <= rot_step(speed, dt),
{
    assert(0 <= speed * dt <= ROT_SPEED_MAX * DT_MAX) by (nonlinear_arith)
        requires
            0 <= speed <= ROT_SPEED_MAX,
            0 <= dt <= DT_MAX,
    ;
    assert(0 <= (speed * dt) / (MILLIS_PER_SEC as int)) by (nonlinear_arith)
        requires
            0 <= speed * dt,
    ;
}

/// The steering clamp at the system level: over one tick, a pursuer's
/// angle difference to the player shrinks by exactly the rotation its
/// angular speed allows in `dt`, to no less than zero — it never turns
/// past facing the player.
pub proof fn lemma_rotated_entity_clamp(e: Entity, px: int, py: int, dt: int)
    requires
        valid_entity(e),
        e.rotate is Some,
        !(e.player is Some),
        !(px == e.transform.x && py == e.transform.y),
        0 <= dt <= DT_MAX,
    ensures
        ({
            let g = angle_of(px - e.transform.x, py - e.transform.y);
            let m = rot_step((e.rotate->0).speed as int, dt);
            let before = abs_val(ang_diff(g, e.transform.heading as int));
            let after = abs_val(ang_diff(g, rotated_entity(e, px, py, dt).transform.heading as int));
            after == if before - m >= 0 {
                before - m
            } else {
                0
            }
        }),
{
    let g = angle_of(px - e.transform.x, py - e.transform.y);
    let m = rot_step((e.rotate->0).speed as int, dt);
    lemma_rot_step_bound((e.rotate->0).speed as int, dt);
    lemma_angle_of_valid(px - e.transform.x, py - e.transform.y);
    lemma_steer_clamp(e.transform.heading as int, g, m);
}

/// Turn every pursuer toward the player; a no-op when no player exists.
pub fn rotate_to_player_system(w: &mut World, dt: i64)
    requires
        wf_world(*old(w)),
        0 <= dt <= DT_MAX,
    ensures
        final(w).entities@ == rotate_all(old(w).entities@, dt as int),
        final(w).next_id == old(w).next_id,
        wf_world(*final(w)),
{
    let ghost w0 = *w;
    let ghost s0 = w.entities@;
    let pi = match find_player(&w.entities) {
        Some(pi) => pi,
        None => {
            return ;
        },
    };
    let px = w.entities[pi].transform.x;
    let py = w.entities[pi].transform.y;
    let n = w.entities.len();
    let mut i: usize = 0;
    while i < n
        invariant
            wf_world(w0),
            s0 == w0.entities@,
            0 <= dt <= DT_MAX,
            n == s0.len(),
            w.entities@.len() == n,
            w.next_id == w0.next_id,
            0 <= pi < n,
            player_index(s0) == pi,
            px == s0[pi as int].transform.x,
            py == s0[pi as int].transform.y,
            0 <= i <= n,
            forall|j: int|
                0 <= j < i ==> #[trigger] w.entities@[j] == rotated_entity(
                    s0[j],
                    px as int,
                    py as int,
                    dt as int,
                ),
            forall|j: int| 0 <= j < i ==> valid_entity(#[trigger] w.entities@[j]),
            forall|j: int| i <= j < n ==> #[trigger] w.entities@[j] == s0[j],
        decreases n - i,
    {
        let e = w.entities[i];
        if e.rotate.is_some() && e.player.is_none() && !(px == e.transform.x && py
            == e.transform.y) {
            let dx = px - e.transform.x;
            let dy = py - e.transform.y;
            let g = angle_to(dx, dy);
            let speed = e.rotate.unwrap().speed;
            proof {
                lemma_rot_step_bound(speed as int, dt as int);
            }
            let m: i64 = (speed * dt) / MILLIS_PER_SEC;
            let h = steer_heading(e.transform.heading, g, m);
            let mut e2 = e;
            e2.transform = Transform2 { x: e.transform.x, y: e.transform.y, heading: h };
            w.entities.set(i, e2);
            assert(e2 == rotated_entity(s0[i as int], px as int, py as int, dt as int));
            assert(valid_entity(e2));
        } else {
            assert(e == rotated_entity(s0[i as int], px as int, py as int, dt as int));
        }
        i = i + 1;
    }
    proof {
        assert(w.entities@ =~= s0.map_values(
            |e: Entity| rotated_entity(e, px as int, py as int, dt as int),
        ));
        lemma_wf_map(w0, *w);
    }
}

} // verus!
