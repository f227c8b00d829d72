//! The combat resolver: bullet-enemy hits and cooldown-gated
//! player-enemy damage, both by strict circle overlap.

use vstd::prelude::*;
use crate::commands::CommandBuffer;
use crate::components::{Health, HitCooldown};
use crate::math::{DT_MAX, TIME_LIMIT, circles_overlap, overlap, spec_clamp};
use crate::world::{Entity, World, find_player, lemma_wf_map, player_index, valid_entity, wf_world};

verus! {

/// Whether entity `e` is an enemy whose sensor circle strictly overlaps
/// the sensor circle of `b`.
pub open spec fn enemy_overlapping(b: Entity, e: Entity) -> bool {
    &&& e.enemy is Some
    &&& e.sensor is Some
    &&& circles_overlap(
        b.transform.x as int,
        b.transform.y as int,
        e.transform.x as int,
        e.transform.y as int,
        (b.sensor->0).radius as int,
        (e.sensor->0).radius as int,
    )
}

/// Index of the first enemy in the table overlapping `b`, or `-1`.
pub open spec fn first_enemy_hit(s: Seq<Entity>, b: Entity) -> int
    decreases s.len(),
{
    if s.len() == 0 {
        -1
    } else if enemy_overlapping(b, s[0]) {
        0
    } else {
        let r = first_enemy_hit(s.drop_first(), b);
        if r < 0 {
            -1
        } else {
            r + 1
        }
    }
}

/// If `i` overlaps and nothing before it does, `i` is the first hit.
proof fn lemma_first_hit_at(s: Seq<Entity>, b: Entity, i: int)
    requires
        0 <= i < s.len(),
        enemy_overlapping(b, s[i]),
        forall|j: int| 0 <= j < i ==> !enemy_overlapping(b, #[trigger] s[j]),
    ensures
        first_enemy_hit(s, b) == i,
    decreases s.len(),
{
    if i > 0 {
        assert(s.drop_first()[i - 1] == s[i]);
        assert(forall|j: int| 0 <= j < i - 1 ==> #[trigger] s.drop_first()[j] == s[j + 1]);
        lemma_first_hit_at(s.drop_first(), b, i - 1);
    }
}

/// If nothing overlaps, there is no first hit.
proof fn lemma_first_hit_none(s: Seq<Entity>, b: Entity)
    requires
        forall|j: int| 0 <= j < s.len() ==> !enemy_overlapping(b, #[trigger] s[j]),
    ensures
        first_enemy_hit(s, b) == -1,
    decreases s.len(),
{
    if s.len() > 0 {
        assert(forall|j: int| 0 <= j < s.len() - 1 ==> #[trigger] s.drop_first()[j] == s[j + 1]);
        lemma_first_hit_none(s.drop_first(), b);
    }
}

/// The first hit, when it exists, overlaps.
pub proof fn lemma_first_hit_props(s: Seq<Entity>, b: Entity)
    ensures
        first_enemy_hit(s, b) >= 0 ==> {
            &&& first_enemy_hit(s, b) < s.len()
            &&& enemy_overlapping(b, s[first_enemy_hit(s, b)])
        },
        first_enemy_hit(s, b) == -1 ==> forall|j: int|
            0 <= j < s.len() ==> !enemy_overlapping(b, #[trigger] s[j]),
    decreases s.len(),
{
    if s.len() > 0 && !enemy_overlapping(b, s[0]) {
        let sub = s.drop_first();
        lemma_first_hit_props(sub, b);
        assert(forall|j: int| 0 <= j < s.len() - 1 ==> #[trigger] sub[j] == s[j + 1]);
        if first_enemy_hit(s, b) >= 0 {
            assert(s[first_enemy_hit(s, b)] == sub[first_enemy_hit(sub, b)]);
        } else {
            assert forall|j: int| 0 <= j < s.len() implies !enemy_overlapping(b, #[trigger] s[j])
            by {
                if j > 0 {
                    assert(!enemy_overlapping(b, sub[j - 1]));
                }
            }
        }
    }
}

/// Find the first enemy in the table overlapping `b`.
fn find_enemy_hit(entities: &Vec<Entity>, b: &Entity) -> (r: Option<usize>)
    requires
        forall|i: int| 0 <= i < entities@.len() ==> valid_entity(#[trigger] entities@[i]),
        valid_entity(*b),
        b.sensor is Some,
    ensures
        r is Some ==> r->0 == first_enemy_hit(entities@, *b) && r->0 < entities@.len(),
        r is None ==> first_enemy_hit(entities@, *b) == -1,
{
    let n = entities.len();
    let mut k: usize = 0;
    while k < n
        invariant
            forall|i: int| 0 <= i < entities@.len() ==> valid_entity(#[trigger] entities@[i]),
            valid_entity(*b),
            b.sensor is Some,
            n == entities@.len(),
            0 <= k <= n,
            forall|j: int| 0 <= j < k ==> !enemy_overlapping(*b, #[trigger] entities@[j]),
        decreases n - k,
    {
        let e = &entities[k];
        if e.enemy.is_some() && e.sensor.is_some() {
            let hit = overlap(
                b.transform.x,
                b.transform.y,
                e.transform.x,
                e.transform.y,
                b.sensor.unwrap().radius,
                e.sensor.unwrap().radius,
            );
            if hit {
                proof {
                    lemma_first_hit_at(entities@, *b, k as int);
                }
                return Some(k);
            }
        }
        k = k + 1;
    }
    proof {
        lemma_first_hit_none(entities@, *b);
    }
    None
}

/// Whether an entity takes part in bullet collision: a bullet with a
/// sensor.
pub open spec fn armed_bullet(e: Entity) -> bool {
    e.bullet is Some && e.sensor is Some
}

/// The despawns bullet resolution records over the first `n` entities:
/// for each bullet in table order, if some enemy overlaps it, the first
/// such enemy and then the bullet itself — one enemy at most per bullet.
pub open spec fn bullet_despawns_upto(s: Seq<Entity>, n: int) -> Seq<u64>
    decreases n,
{
    if n <= 0 {
        Seq::empty()
    } else {
        let prev = bullet_despawns_upto(s, n - 1);
        let b = s[n - 1];
        if armed_bullet(b) && first_enemy_hit(s, b) >= 0 {
            prev + seq![s[first_enemy_hit(s, b)].id, b.id]
        } else {
            prev
        }
    }
}

/// The despawns bullet resolution records over the whole table.
pub open spec fn bullet_despawn_seq(s: Seq<Entity>) -> Seq<u64> {
    bullet_despawns_upto(s, s.len() as int)
}

/// Resolve bullet-enemy hits: for each bullet, in table order, destroy
/// the first overlapping enemy and the bullet itself — a bullet kills at
/// most one enemy per tick. Destruction is recorded in the batch, so the
/// table itself is untouched until the tick boundary.
pub fn bullet_system(w: &World, cmds: &mut CommandBuffer)
    requires
        wf_world(*w),
    ensures
        final(cmds).despawns@ == old(cmds).despawns@ + bullet_despawn_seq(w.entities@),
        final(cmds).remove_moves@ == old(cmds).remove_moves@,
        final(cmds).mark_dead@ == old(cmds).mark_dead@,
        final(cmds).spawns@ == old(cmds).spawns@,
{
    let ghost d0 = cmds.despawns@;
    let ghost s = w.entities@;
    let n = w.entities.len();
    let mut i: usize = 0;
    while i < n
        invariant
            wf_world(*w),
            s == w.entities@,
            n == s.len(),
            0 <= i <= n,
            cmds.despawns@ == d0 + bullet_despawns_upto(s, i as int),
            cmds.remove_moves@ == old(cmds).remove_moves@,
            cmds.mark_dead@ == old(cmds).mark_dead@,
            cmds.spawns@ == old(cmds).spawns@,
        decreases n - i,
    {
        let b = w.entities[i];
        if b.bullet.is_some() && b.sensor.is_some() {
            match find_enemy_hit(&w.entities, &b) {
                Some(j) => {
                    cmds.despawns.push(w.entities[j].id);
                    cmds.despawns.push(b.id);
                    proof {
                        assert(cmds.despawns@ =~= d0 + bullet_despawns_upto(s, i + 1));
                    }
                },
                None => {},
            }
        }
        i = i + 1;
    }
    proof {
        assert(cmds.despawns@ == d0 + bullet_despawn_seq(s));
    }
}

/// Whether the player entity carries everything combat reads: sensor,
/// health and the hit cooldown.
pub open spec fn combat_ready(p: Entity) -> bool {
    p.sensor is Some && p.health is Some && p.cooldown is Some
}

/// The player's hit points after one gated hit: one point less, held
/// inside the representable range (the floor is far below any reachable
/// value).
pub open spec fn damaged_health(h: int) -> int {
    spec_clamp(h - 1, -(TIME_LIMIT as int), TIME_LIMIT as int)
}

/// What one combat tick does to the table: a no-op without a player (or
/// with one missing a combat component). With the cooldown elapsed
/// (`time_remains <= 0`) and any enemy overlapping, the cooldown refills
/// and the player loses exactly one hit point — one hit event, however
/// many enemies overlap at once. With the cooldown still running, it
/// counts down by `dt` instead and overlaps are not even examined.
pub open spec fn player_combat_entities(s: Seq<Entity>, dt: int) -> Seq<Entity> {
    let pi = player_index(s);
    if pi == -1 {
        s
    } else {
        let p = s[pi];
        if !combat_ready(p) {
            s
        } else {
            let cd = p.cooldown->0;
            if cd.time_remains <= 0 {
                if first_enemy_hit(s, p) >= 0 {
                    s.update(
                        pi,
                        Entity {
                            health: Some(Health(damaged_health((p.health->0).0 as int) as i64)),
                            cooldown: Some(
                                HitCooldown {
                                    time_full: cd.time_full,
                                    time_remains: cd.time_full,
                                },
                            ),
                            ..p
                        },
                    )
                } else {
                    s
                }
            } else {
                s.update(
                    pi,
                    Entity {
                        cooldown: Some(
                            HitCooldown {
                                time_full: cd.time_full,
                                time_remains: (cd.time_remains - dt) as i64,
                            },
                        ),
                        ..p
                    },
                )
            }
        }
    }
}

/// The `Move` removal one combat tick records: the player loses its
/// `Move` component exactly when this tick's damage brings it to zero or
/// below.
pub open spec fn player_combat_removes(s: Seq<Entity>) -> Seq<u64> {
    let pi = player_index(s);
    if pi >= 0 && combat_ready(s[pi]) && (s[pi].cooldown->0).time_remains <= 0 && first_enemy_hit(
        s,
        s[pi],
    ) >= 0 && damaged_health((s[pi].health->0).0 as int) <= 0 {
        seq![s[pi].id]
    } else {
        Seq::empty()
    }
}

/// The cooldown cycle. From an elapsed cooldown (`time_remains <= 0`)
/// with an enemy overlapping, one combat tick damages the player by
/// exactly one hit point — however many enemies overlap at once — and
/// refills the cooldown to `time_full`. On the next tick the cooldown is
/// still running, so whatever enemies then overlap, the player's health
/// does not change again: the cooldown merely counts down by that tick's
/// `dt`. Once it reaches zero or below, the first branch applies again
/// and an overlap damages as before.
pub proof fn lemma_cooldown_cycle(s: Seq<Entity>, dt1: int, dt2: int)
    requires
        player_index(s) >= 0,
        combat_ready(s[player_index(s)]),
        (s[player_index(s)].cooldown->0).time_remains <= 0,
        first_enemy_hit(s, s[player_index(s)]) >= 0,
        (s[player_index(s)].cooldown->0).time_full > 0,
        0 <= dt2 < (s[player_index(s)].cooldown->0).time_full,
    ensures
        ({
            let pi = player_index(s);
            let p = s[pi];
            let s1 = player_combat_entities(s, dt1);
            let s2 = player_combat_entities(s1, dt2);
            &&& player_index(s1) == pi
            // immediately after the hit the cooldown is full
            &&& (s1[pi].cooldown->0).time_remains == (p.cooldown->0).time_full
            // and the damage is exactly one hit point
            &&& (s1[pi].health->0).0 == damaged_health((p.health->0).0 as int)
            // a second tick while the cooldown runs leaves health alone
            &&& s2[pi].health == s1[pi].health
            // and only counts the cooldown down
            &&& (s2[pi].cooldown->0).time_remains == (p.cooldown->0).time_full - dt2
        }),
{
    let pi = player_index(s);
    let p = s[pi];
    let cd = p.cooldown->0;
    let p1 = Entity {
        health: Some(Health(damaged_health((p.health->0).0 as int) as i64)),
        cooldown: Some(HitCooldown { time_full: cd.time_full, time_remains: cd.time_full }),
        ..p
    };
    let s1 = player_combat_entities(s, dt1);
    assert(s1 == s.update(pi, p1));
    crate::world::lemma_player_index(s);
    crate::world::lemma_player_index_update(s, pi, p1);
    assert(s1[pi] == p1);
    let p2 = Entity {
        cooldown: Some(
            HitCooldown { time_full: cd.time_full, time_remains: (cd.time_full - dt2) as i64 },
        ),
        ..p1
    };
    let s2 = player_combat_entities(s1, dt2);
    assert(s2 == s1.update(pi, p2));
    assert(s2[pi] == p2);
}

/// Resolve player-enemy contact damage, gated by the hit cooldown. The
/// component edits are in place; losing `Move` on death is recorded in
/// the batch. A no-op when no player exists.
pub fn player_system(w: &mut World, cmds: &mut CommandBuffer, dt: i64)
    requires
        wf_world(*old(w)),
        0 <= dt <= DT_MAX,
    ensures
        final(w).entities@ == player_combat_entities(old(w).entities@, dt as int),
        final(w).next_id == old(w).next_id,
        wf_world(*final(w)),
        final(cmds).remove_moves@ == old(cmds).remove_moves@ + player_combat_removes(
            old(w).entities@,
        ),
        final(cmds).despawns@ == old(cmds).despawns@,
        final(cmds).mark_dead@ == old(cmds).mark_dead@,
        final(cmds).spawns@ == old(cmds).spawns@,
{
    let ghost w0 = *w;
    let ghost s = w.entities@;
    let pi = match find_player(&w.entities) {
        Some(pi) => pi,
        None => {
            assert(cmds.remove_moves@ =~= cmds.remove_moves@ + player_combat_removes(s));
            return ;
        },
    };
    let p = w.entities[pi];
    if !(p.sensor.is_some() && p.health.is_some() && p.cooldown.is_some()) {
        assert(cmds.remove_moves@ =~= cmds.remove_moves@ + player_combat_removes(s));
        return ;
    }
    let cd = p.cooldown.unwrap();
    if cd.time_remains <= 0 {
        let hit = find_enemy_hit(&w.entities, &p);
        if hit.is_some() {
            let old_h = p.health.unwrap().0;
            let new_h: i64 = if old_h - 1 < -TIME_LIMIT {
                -TIME_LIMIT
            } else {
                old_h - 1
            };
            let mut p2 = p;
            p2.health = Some(Health(new_h));
            p2.cooldown = Some(HitCooldown { time_full: cd.time_full, time_remains: cd.time_full });
            w.entities.set(pi, p2);
            if new_h <= 0 {
                cmds.remove_moves.push(p.id);
            } else {
                assert(cmds.remove_moves@ =~= cmds.remove_moves@ + player_combat_removes(s));
            }
            proof {
                lemma_wf_map(w0, *w);
            }
        } else {
            assert(cmds.remove_moves@ =~= cmds.remove_moves@ + player_combat_removes(s));
        }
    } else {
        let mut p2 = p;
        p2.cooldown = Some(HitCooldown { time_full: cd.time_full, time_remains: cd.time_remains - dt });
        w.entities.set(pi, p2);
        assert(cmds.remove_moves@ =~= cmds.remove_moves@ + player_combat_removes(s));
        proof {
            lemma_wf_map(w0, *w);
        }
    }
}

} // verus!
