//! The player's intent handling: directional movement inside the arena
//! bounds, aiming at the mouse position, firing bullets, and the death
//! transition once health is gone.

use vstd::prelude::*;
use crate::commands::{CommandBuffer, SpawnRequest, wf_cmds};
use crate::components::{Decay, Transform2};
use crate::math::{DIR_ONE, DT_MAX, POS_LIMIT, SPEED_MAX, angle_of, angle_to, clamp_i64, dir_x, dir_y, forward_vec, spec_clamp};
use crate::prefabs::{DEATH_DECAY, bullet_bundle, spec_bullet_bundle};
use crate::resources::{BOUND_HALF_X, BOUND_HALF_Y, MouseWorldPos, valid_mouse};
use crate::world::{Entity, World, find_player, lemma_wf_map, player_index, valid_entity, wf_world};

verus! {

/// How far ahead of the player a bullet starts, per forward component
/// unit: two world units in all.
pub const MUZZLE_STEP: i64 = 2000;

/// The movement direction the four directional intents resolve to, `X`
/// component: taxicab-normalized, so a diagonal splits the speed evenly
/// over the two axes and opposite intents cancel.
pub open spec fn intent_x(up: bool, down: bool, left: bool, right: bool) -> int {
    let ix: int = (if right {
        1int
    } else {
        0int
    }) - (if left {
        1int
    } else {
        0int
    });
    let iy: int = (if up {
        1int
    } else {
        0int
    }) - (if down {
        1int
    } else {
        0int
    });
    if ix != 0 && iy != 0 {
        (DIR_ONE / 2) * ix
    } else {
        DIR_ONE * ix
    }
}

/// The movement direction the four directional intents resolve to, `Y`
/// component.
pub open spec fn intent_y(up: bool, down: bool, left: bool, right: bool) -> int {
    let ix: int = (if right {
        1int
    } else {
        0int
    }) - (if left {
        1int
    } else {
        0int
    });
    let iy: int = (if up {
        1int
    } else {
        0int
    }) - (if down {
        1int
    } else {
        0int
    });
    if ix != 0 && iy != 0 {
        (DIR_ONE / 2) * iy
    } else {
        DIR_ONE * iy
    }
}

/// What one intent-movement tick does to the table: the player (if it
/// exists and still has `Move`) advances by its intent direction times
/// speed times `dt` and is then held inside the arena bounds — also when
/// it did not move. Its heading is aim-driven and untouched here.
pub open spec fn intent_moved_entities(
    s: Seq<Entity>,
    up: bool,
    down: bool,
    left: bool,
    right: bool,
    dt: int,
) -> Seq<Entity> {
    let pi = player_index(s);
    if pi == -1 {
        s
    } else {
        let p = s[pi];
        if p.mv is Some {
            let speed = (p.mv->0).speed as int;
            let nx = spec_clamp(
                p.transform.x + intent_x(up, down, left, right) * speed * dt,
                -(BOUND_HALF_X as int),
                BOUND_HALF_X as int,
            );
            let ny = spec_clamp(
                p.transform.y + intent_y(up, down, left, right) * speed * dt,
                -(BOUND_HALF_Y as int),
                BOUND_HALF_Y as int,
            );
            s.update(
                pi,
                Entity {
                    transform: Transform2 {
                        x: nx as i64,
                        y: ny as i64,
                        heading: p.transform.heading,
                    },
                    ..p
                },
            )
        } else {
            s
        }
    }
}

/// An intent displacement over one tick is bounded.
proof fn lemma_intent_bound(d: int, s: int, t: int)
    requires
        -DIR_ONE <= d <= DIR_ONE,
        0 <= s <= SPEED_MAX,
        0 <= t <= DT_MAX,
    ensures
        -(DIR_ONE * SPEED_MAX) <= d * s <= DIR_ONE * SPEED_MAX,
        -(DIR_ONE * SPEED_MAX * DT_MAX) <= d * s * t <= DIR_ONE * SPEED_MAX * DT_MAX,
{
    assert(-(DIR_ONE * SPEED_MAX) <= d * s <= DIR_ONE * SPEED_MAX) by (nonlinear_arith)
        requires
            -DIR_ONE <= d <= DIR_ONE,
            0 <= s <= SPEED_MAX,
    ;
    assert(-(DIR_ONE * SPEED_MAX * DT_MAX) <= (d * s) * t <= DIR_ONE * SPEED_MAX * DT_MAX)
        by (nonlinear_arith)
        requires
            -(DIR_ONE * SPEED_MAX) <= d * s <= DIR_ONE * SPEED_MAX,
            0 <= t <= DT_MAX,
    ;
}

/// Move the player by the directional intent and hold it inside the
/// arena bounds. A no-op when no player exists or it has lost `Move`.
pub fn movement_system(w: &mut World, up: bool, down: bool, left: bool, right: bool, dt: i64)
    requires
        wf_world(*old(w)),
        0 <= dt <= DT_MAX,
    ensures
        final(w).entities@ == intent_moved_entities(
            old(w).entities@,
            up,
            down,
            left,
            right,
            dt as int,
        ),
        final(w).next_id == old(w).next_id,
        wf_world(*final(w)),
{
    let ghost w0 = *w;
    let ghost s = w.entities@;
    let pi = match find_player(&w.entities) {
        Some(pi) => pi,
        None => {
            return ;
        },
    };
    let p = w.entities[pi];
    if p.mv.is_none() {
        return ;
    }
    let speed = p.mv.unwrap().speed;
    let ix: i64 = (if right {
        1i64
    } else {
        0i64
    }) - (if left {
        1i64
    } else {
        0i64
    });
    let iy: i64 = (if up {
        1i64
    } else {
        0i64
    }) - (if down {
        1i64
    } else {
        0i64
    });
    let dx: i64 = if ix != 0 && iy != 0 {
        (DIR_ONE / 2) * ix
    } else {
        DIR_ONE * ix
    };
    let dy: i64 = if ix != 0 && iy != 0 {
        (DIR_ONE / 2) * iy
    } else {
        DIR_ONE * iy
    };
    proof {
        lemma_intent_bound(dx as int, speed as int, dt as int);
        lemma_intent_bound(dy as int, speed as int, dt as int);
    }
    let nx = clamp_i64(p.transform.x + dx * speed * dt, -BOUND_HALF_X, BOUND_HALF_X);
    let ny = clamp_i64(p.transform.y + dy * speed * dt, -BOUND_HALF_Y, BOUND_HALF_Y);
    let mut p2 = p;
    p2.transform = Transform2 { x: nx, y: ny, heading: p.transform.heading };
    w.entities.set(pi, p2);
    proof {
        assert(dx == intent_x(up, down, left, right));
        assert(dy == intent_y(up, down, left, right));
        lemma_wf_map(w0, *w);
    }
}

/// What one aim tick does to the table: the player turns instantly to
/// face the aim position; aiming at the player's exact position leaves
/// the heading unchanged rather than making it undefined.
pub open spec fn aimed_entities(s: Seq<Entity>, mx: int, my: int) -> Seq<Entity> {
    let pi = player_index(s);
    if pi == -1 {
        s
    } else {
        let p = s[pi];
        if mx == p.transform.x && my == p.transform.y {
            s
        } else {
            s.update(
                pi,
                Entity {
                    transform: Transform2 {
                        x: p.transform.x,
                        y: p.transform.y,
                        heading: angle_of(mx - p.transform.x, my - p.transform.y) as i64,
                    },
                    ..p
                },
            )
        }
    }
}

/// Turn the player to face the aim position. A no-op when no player
/// exists or the aim position equals the player's position.
pub fn aim_system(w: &mut World, mouse: MouseWorldPos)
    requires
        wf_world(*old(w)),
        valid_mouse(mouse),
    ensures
        final(w).entities@ == aimed_entities(old(w).entities@, mouse.x as int, mouse.y as int),
        final(w).next_id == old(w).next_id,
        wf_world(*final(w)),
{
    let ghost w0 = *w;
    let pi = match find_player(&w.entities) {
        Some(pi) => pi,
        None => {
            return ;
        },
    };
    let p = w.entities[pi];
    if mouse.x == p.transform.x && mouse.y == p.transform.y {
        return ;
    }
    let h = angle_to(mouse.x - p.transform.x, mouse.y - p.transform.y);
    let mut p2 = p;
    p2.transform = Transform2 { x: p.transform.x, y: p.transform.y, heading: h };
    w.entities.set(pi, p2);
    proof {
        lemma_wf_map(w0, *w);
    }
}

/// Where a bullet fired now would start: two world units ahead of the
/// player along its heading, held inside the coordinate range.
pub open spec fn muzzle_transform(t: Transform2) -> Transform2 {
    Transform2 {
        x: spec_clamp(
            t.x + dir_x(t.heading as int) * MUZZLE_STEP,
            -(POS_LIMIT as int),
            POS_LIMIT as int,
        ) as i64,
        y: spec_clamp(
            t.y + dir_y(t.heading as int) * MUZZLE_STEP,
            -(POS_LIMIT as int),
            POS_LIMIT as int,
        ) as i64,
        heading: t.heading,
    }
}

/// The spawns one fire tick records: one bullet ahead of the player on a
/// fire edge, nothing otherwise or without a player.
pub open spec fn fire_spawns(s: Seq<Entity>, fire: bool) -> Seq<SpawnRequest> {
    let pi = player_index(s);
    if fire && pi >= 0 {
        seq![
            SpawnRequest { proto: spec_bullet_bundle(muzzle_transform(s[pi].transform)), parent_spawn: None },
        ]
    } else {
        Seq::empty()
    }
}

/// On a fire edge, record a bullet spawn ahead of the player. A no-op
/// when no player exists.
pub fn fire_system(w: &World, cmds: &mut CommandBuffer, fire: bool)
    requires
        wf_world(*w),
        wf_cmds(*old(cmds)),
    ensures
        final(cmds).spawns@ == old(cmds).spawns@ + fire_spawns(w.entities@, fire),
        final(cmds).despawns@ == old(cmds).despawns@,
        final(cmds).remove_moves@ == old(cmds).remove_moves@,
        final(cmds).mark_dead@ == old(cmds).mark_dead@,
        wf_cmds(*final(cmds)),
{
    let ghost s = w.entities@;
    if !fire {
        assert(cmds.spawns@ =~= cmds.spawns@ + fire_spawns(s, fire));
        return ;
    }
    let pi = match find_player(&w.entities) {
        Some(pi) => pi,
        None => {
            assert(cmds.spawns@ =~= cmds.spawns@ + fire_spawns(s, fire));
            return ;
        },
    };
    let t = w.entities[pi].transform;
    let (fx, fy) = forward_vec(t.heading);
    let bx = clamp_i64(t.x + fx * MUZZLE_STEP, -POS_LIMIT, POS_LIMIT);
    let by = clamp_i64(t.y + fy * MUZZLE_STEP, -POS_LIMIT, POS_LIMIT);
    let bt = Transform2 { x: bx, y: by, heading: t.heading };
    let proto = bullet_bundle(bt);
    cmds.spawns.push(SpawnRequest { proto, parent_spawn: None });
    proof {
        assert(bt == muzzle_transform(t));
        assert(cmds.spawns@ =~= old(cmds).spawns@ + fire_spawns(s, fire));
    }
}

/// The death marks one tick records: the player, when its health is gone
/// and its death has not been resolved yet — it gains `Dead` and a death
/// decay and loses `Move` at the tick boundary, to be removed once the
/// decay runs out.
pub open spec fn died_marks(s: Seq<Entity>) -> Seq<(u64, Decay)> {
    let pi = player_index(s);
    if pi >= 0 && s[pi].health is Some && !(s[pi].dead is Some) && (s[pi].health->0).0 <= 0 {
        seq![(s[pi].id, Decay { max_time: DEATH_DECAY, elapsed_time: 0 })]
    } else {
        Seq::empty()
    }
}

/// Resolve the player's death: once health is at zero or below and the
/// death is not yet resolved, record the death mark. A no-op when no
/// player exists.
pub fn died_system(w: &World, cmds: &mut CommandBuffer)
    requires
        wf_world(*w),
        wf_cmds(*old(cmds)),
    ensures
        final(cmds).mark_dead@ == old(cmds).mark_dead@ + died_marks(w.entities@),
        final(cmds).despawns@ == old(cmds).despawns@,
        final(cmds).remove_moves@ == old(cmds).remove_moves@,
        final(cmds).spawns@ == old(cmds).spawns@,
        wf_cmds(*final(cmds)),
{
    let ghost s = w.entities@;
    let pi = match find_player(&w.entities) {
        Some(pi) => pi,
        None => {
            assert(cmds.mark_dead@ =~= cmds.mark_dead@ + died_marks(s));
            return ;
        },
    };
    let p = &w.entities[pi];
    if p.health.is_some() && p.dead.is_none() && p.health.unwrap().0 <= 0 {
        cmds.mark_dead.push((p.id, Decay { max_time: DEATH_DECAY, elapsed_time: 0 }));
        proof {
            assert(cmds.mark_dead@ =~= old(cmds).mark_dead@ + died_marks(s));
        }
    } else {
        assert(cmds.mark_dead@ =~= cmds.mark_dead@ + died_marks(s));
    }
}

} // verus!
