//! The lifetime manager: transient entities age every tick and are
//! destroyed once their age has passed their time-to-live. It runs in
//! every phase, so stray transients are always cleaned up.

use vstd::prelude::*;
use crate::commands::CommandBuffer;
use crate::components::{Decay, valid_decay};
use crate::math::DT_MAX;
use crate::world::{Entity, World, lemma_wf_map, uniq_ids, wf_world};

verus! {

/// Whether the entity's time-to-live has run out: strictly past
/// `max_time`, so an entity is still present at `elapsed_time == max_time`.
pub open spec fn decay_expired(e: Entity) -> bool {
    e.decay is Some && (e.decay->0).elapsed_time > (e.decay->0).max_time
}

/// What one lifetime tick does to one entity: a transient that has not
/// expired ages by `dt`; everything else is left alone (the expired are
/// recorded for destruction instead).
pub open spec fn decayed_entity(e: Entity, dt: int) -> Entity {
    if e.decay is Some && !decay_expired(e) {
        Entity {
            decay: Some(
                Decay {
                    max_time: (e.decay->0).max_time,
                    elapsed_time: ((e.decay->0).elapsed_time + dt) as i64,
                },
            ),
            ..e
        }
    } else {
        e
    }
}

/// The despawns the lifetime tick records over the first `n` entities:
/// every expired transient, in table order.
pub open spec fn decay_despawns_upto(s: Seq<Entity>, n: int) -> Seq<u64>
    decreases n,
{
    if n <= 0 {
        Seq::empty()
    } else {
        let prev = decay_despawns_upto(s, n - 1);
        if decay_expired(s[n - 1]) {
            prev.push(s[n - 1].id)
        } else {
            prev
        }
    }
}

/// The despawns the lifetime tick records over the whole table.
pub open spec fn decay_despawn_seq(s: Seq<Entity>) -> Seq<u64> {
    decay_despawns_upto(s, s.len() as int)
}

/// A despawn recorded over a prefix names an expired entity of it.
proof fn lemma_decay_origin(s: Seq<Entity>, n: int, x: u64)
    requires
        0 <= n <= s.len(),
        decay_despawns_upto(s, n).contains(x),
    ensures
        exists|j: int| 0 <= j < n && (#[trigger] s[j].id) == x && decay_expired(s[j]),
    decreases n,
{
    broadcast use vstd::seq_lib::lemma_seq_contains_after_push;

    if n > 0 && decay_despawns_upto(s, n - 1).contains(x) {
        lemma_decay_origin(s, n - 1, x);
    }
}

/// Every expired entity of a prefix is recorded.
proof fn lemma_decay_complete(s: Seq<Entity>, n: int, j: int)
    requires
        0 <= j < n <= s.len(),
        decay_expired(s[j]),
    ensures
        decay_despawns_upto(s, n).contains(s[j].id),
    decreases n,
{
    broadcast use vstd::seq_lib::lemma_seq_contains_after_push;

    if j < n - 1 {
        lemma_decay_complete(s, n - 1, j);
    } else {
        assert(decay_despawns_upto(s, n) == decay_despawns_upto(s, n - 1).push(s[j].id));
    }
}

/// The decay threshold. A transient whose age has reached exactly its
/// time-to-live is not yet despawned — it merely ages by `dt` — and one
/// whose age is strictly past it is despawned and no longer aged.
pub proof fn lemma_decay_threshold(s: Seq<Entity>, i: int, dt: int)
    requires
        uniq_ids(s),
        0 <= i < s.len(),
        s[i].decay is Some,
        valid_decay(s[i].decay->0),
        0 <= dt <= DT_MAX,
    ensures
        (s[i].decay->0).elapsed_time <= (s[i].decay->0).max_time ==> {
            &&& !decay_despawn_seq(s).contains(s[i].id)
            &&& (decayed_entity(s[i], dt).decay->0).elapsed_time == (s[i].decay->0).elapsed_time
                + dt
        },
        (s[i].decay->0).elapsed_time > (s[i].decay->0).max_time ==> {
            &&& decay_despawn_seq(s).contains(s[i].id)
            &&& decayed_entity(s[i], dt) == s[i]
        },
{
    if decay_expired(s[i]) {
        lemma_decay_complete(s, s.len() as int, i);
    } else {
        if decay_despawn_seq(s).contains(s[i].id) {
            lemma_decay_origin(s, s.len() as int, s[i].id);
            let j = choose|j: int|
                0 <= j < s.len() && (#[trigger] s[j].id) == s[i].id && decay_expired(s[j]);
            assert(j == i);
        }
    }
}

/// Age every transient entity by `dt`; record every expired one for
/// destruction at the tick boundary. An entity is destroyed only once
/// `elapsed_time` strictly exceeds `max_time`, never earlier, and never
/// skipped: it stays on the despawn record until applied.
pub fn decay_system(w: &mut World, cmds: &mut CommandBuffer, dt: i64)
    requires
        wf_world(*old(w)),
        0 <= dt <= DT_MAX,
    ensures
        final(w).entities@ == old(w).entities@.map_values(
            |e: Entity| decayed_entity(e, dt as int),
        ),
        final(w).next_id == old(w).next_id,
        wf_world(*final(w)),
        final(cmds).despawns@ == old(cmds).despawns@ + decay_despawn_seq(old(w).entities@),
        final(cmds).remove_moves@ == old(cmds).remove_moves@,
        final(cmds).mark_dead@ == old(cmds).mark_dead@,
        final(cmds).spawns@ == old(cmds).spawns@,
{
    let ghost w0 = *w;
    let ghost s0 = w.entities@;
    let ghost d0 = cmds.despawns@;
    let n = w.entities.len();
    let mut i: usize = 0;
    while i < n
        invariant
            wf_world(w0),
            s0 == w0.entities@,
            0 <= dt <= DT_MAX,
            n == s0.len(),
            w.entities@.len() == n,
            w.next_id == w0.next_id,
            0 <= i <= n,
            forall|j: int|
                0 <= j < i ==> #[trigger] w.entities@[j] == decayed_entity(s0[j], dt as int),
            forall|j: int| i <= j < n ==> #[trigger] w.entities@[j] == s0[j],
            cmds.despawns@ == d0 + decay_despawns_upto(s0, i as int),
            cmds.remove_moves@ == old(cmds).remove_moves@,
            cmds.mark_dead@ == old(cmds).mark_dead@,
            cmds.spawns@ == old(cmds).spawns@,
        decreases n - i,
    {
        let e = w.entities[i];
        if e.decay.is_some() {
            let d = e.decay.unwrap();
            if d.elapsed_time > d.max_time {
                cmds.despawns.push(e.id);
                proof {
                    assert(cmds.despawns@ =~= d0 + decay_despawns_upto(s0, i + 1));
                }
            } else {
                let mut e2 = e;
                e2.decay = Some(Decay { max_time: d.max_time, elapsed_time: d.elapsed_time + dt });
                w.entities.set(i, e2);
                assert(e2 == decayed_entity(s0[i as int], dt as int));
            }
        }
        i = i + 1;
    }
    proof {
        assert(w.entities@ =~= s0.map_values(|e: Entity| decayed_entity(e, dt as int)));
        lemma_wf_map(w0, *w);
        assert(cmds.despawns@ == d0 + decay_despawn_seq(s0));
    }
}

} // verus!
