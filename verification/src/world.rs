//! The entity store: a flat table of entities with optional components,
//! plus the deferred command buffer that a tick fills and applies at its
//! end, so that no system mutates the table while another is scanning it.

use vstd::prelude::*;
use crate::components::{Bullet, Dead, Decay, Enemy, Health, HitCooldown, Move, Player, RotateToPlayer, Sensor, Transform2, valid_cooldown, valid_decay, valid_health, valid_move, valid_rotate, valid_sensor, valid_transform};

verus! {

/// Largest number of entities the store accepts.
pub const MAX_ENTITIES: usize = 1000000;

/// One entity: an identifier, an optional parent (a destroyed parent takes
/// its whole subtree with it), a transform, and optional components.
#[derive(Clone, Copy, Debug)]
pub struct Entity {
    pub id: u64,
    pub parent: Option<u64>,
    pub transform: Transform2,
    pub mv: Option<Move>,
    pub rotate: Option<RotateToPlayer>,
    pub sensor: Option<Sensor>,
    pub health: Option<Health>,
    pub cooldown: Option<HitCooldown>,
    pub decay: Option<Decay>,
    pub player: Option<Player>,
    pub enemy: Option<Enemy>,
    pub bullet: Option<Bullet>,
    pub dead: Option<Dead>,
}

/// Every component the entity carries is within the ranges a tick needs.
pub open spec fn valid_entity(e: Entity) -> bool {
    &&& valid_transform(e.transform)
    &&& (e.mv is Some ==> valid_move(e.mv->0))
    &&& (e.rotate is Some ==> valid_rotate(e.rotate->0))
    &&& (e.sensor is Some ==> valid_sensor(e.sensor->0))
    &&& (e.health is Some ==> valid_health(e.health->0))
    &&& (e.cooldown is Some ==> valid_cooldown(e.cooldown->0))
    &&& (e.decay is Some ==> valid_decay(e.decay->0))
}

/// The store. Entities keep their creation order; a child always stands
/// after its parent.
pub struct World {
    pub entities: Vec<Entity>,
    pub next_id: u64,
}

/// All entities of a table are valid.
pub open spec fn all_valid(s: Seq<Entity>) -> bool {
    forall|i: int| 0 <= i < s.len() ==> valid_entity(#[trigger] s[i])
}

/// No two entities of a table share an identifier.
pub open spec fn uniq_ids(s: Seq<Entity>) -> bool {
    forall|i: int, j: int| 0 <= i < j < s.len() ==> (#[trigger] s[i].id) != (#[trigger] s[j].id)
}

/// Every entity with a parent stands after it in the table.
pub open spec fn parents_before(s: Seq<Entity>) -> bool {
    forall|i: int|
        0 <= i < s.len() && (#[trigger] s[i].parent) is Some ==> exists|j: int|
            0 <= j < i && (#[trigger] s[j].id) == s[i].parent->0
}

/// Well-formedness of the store: all entities valid, identifiers unique and
/// below `next_id`, every parent present earlier in the table, and the
/// table within capacity.
pub open spec fn wf_world(w: World) -> bool {
    let s = w.entities@;
    &&& s.len() <= MAX_ENTITIES
    &&& all_valid(s)
    &&& forall|i: int| 0 <= i < s.len() ==> (#[trigger] s[i].id) < w.next_id
    &&& uniq_ids(s)
    &&& parents_before(s)
}

impl World {
    /// An empty store.
    pub fn new() -> (w: World)
        ensures
            w.entities@.len() == 0,
            w.next_id == 0,
            wf_world(w),
    {
        World { entities: Vec::new(), next_id: 0 }
    }
}

/// A per-entity update that keeps identifier, parent and validity keeps
/// the store well-formed.
pub proof fn lemma_wf_map(w0: World, w1: World)
    requires
        wf_world(w0),
        w1.next_id == w0.next_id,
        w1.entities@.len() == w0.entities@.len(),
        forall|i: int|
            0 <= i < w0.entities@.len() ==> (#[trigger] w1.entities@[i]).id == w0.entities@[i].id
                && w1.entities@[i].parent == w0.entities@[i].parent && valid_entity(
                w1.entities@[i],
            ),
    ensures
        wf_world(w1),
{
    let s0 = w0.entities@;
    let s1 = w1.entities@;
    assert forall|i: int|
        0 <= i < s1.len() && (#[trigger] s1[i].parent) is Some implies exists|j: int|
            0 <= j < i && (#[trigger] s1[j].id) == s1[i].parent->0 by {
        assert(s0[i].parent is Some);
        let j = choose|j: int| 0 <= j < i && (#[trigger] s0[j].id) == s0[i].parent->0;
        assert(s1[j].id == s1[i].parent->0);
    }
}

/// Index of the first entity carrying the player marker, or `-1`.
pub open spec fn player_index(s: Seq<Entity>) -> int
    decreases s.len(),
{
    if s.len() == 0 {
        -1
    } else if s[0].player is Some {
        0
    } else {
        let r = player_index(s.drop_first());
        if r < 0 {
            -1
        } else {
            r + 1
        }
    }
}

/// What `player_index` answers: `-1` when no entity carries the player
/// marker, else the first index that does.
pub proof fn lemma_player_index(s: Seq<Entity>)
    ensures
        player_index(s) == -1 ==> forall|i: int| 0 <= i < s.len() ==> !((#[trigger] s[i].player) is Some),
        player_index(s) >= 0 ==> {
            &&& player_index(s) < s.len()
            &&& s[player_index(s)].player is Some
            &&& forall|i: int| 0 <= i < player_index(s) ==> !((#[trigger] s[i].player) is Some)
        },
    decreases s.len(),
{
    if s.len() > 0 && !(s[0].player is Some) {
        let sub = s.drop_first();
        lemma_player_index(sub);
        if player_index(s) == -1 {
            assert forall|i: int| 0 <= i < s.len() implies !((#[trigger] s[i].player) is Some) by {
                if i > 0 {
                    assert(!(sub[i - 1].player is Some));
                }
            }
        } else {
            assert(s[player_index(s)] == sub[player_index(sub)]);
            assert forall|i: int| 0 <= i < player_index(s) implies !((#[trigger] s[i].player) is Some) by {
                if i > 0 {
                    assert(!(sub[i - 1].player is Some));
                }
            }
        }
    }
}

/// Find the first entity carrying the player marker.
pub fn find_player(entities: &Vec<Entity>) -> (r: Option<usize>)
    ensures
        r is Some ==> r->0 == player_index(entities@) && r->0 < entities@.len(),
        r is None ==> player_index(entities@) == -1,
{
    proof {
        lemma_player_index(entities@);
    }
    let n = entities.len();
    let mut k: usize = 0;
    while k < n
        invariant
            n == entities@.len(),
            0 <= k <= n,
            forall|i: int| 0 <= i < k ==> !((#[trigger] entities@[i].player) is Some),
        decreases n - k,
    {
        if entities[k].player.is_some() {
            proof {
                lemma_player_index_first(entities@, k as int);
            }
            return Some(k);
        }
        k = k + 1;
    }
    proof {
        lemma_player_index_none(entities@);
    }
    None
}

/// If `i` carries the marker and nothing before it does, `i` is the first.
pub proof fn lemma_player_index_first(s: Seq<Entity>, i: int)
    requires
        0 <= i < s.len(),
        s[i].player is Some,
        forall|j: int| 0 <= j < i ==> !((#[trigger] s[j].player) is Some),
    ensures
        player_index(s) == i,
    decreases s.len(),
{
    if i > 0 {
        assert(s.drop_first()[i - 1] == s[i]);
        assert(forall|j: int| 0 <= j < i - 1 ==> s.drop_first()[j] == s[j + 1]);
        lemma_player_index_first(s.drop_first(), i - 1);
    }
}

/// If nothing carries the marker, there is no first.
pub proof fn lemma_player_index_none(s: Seq<Entity>)
    requires
        forall|i: int| 0 <= i < s.len() ==> !((#[trigger] s[i].player) is Some),
    ensures
        player_index(s) == -1,
    decreases s.len(),
{
    if s.len() > 0 {
        assert(forall|j: int| 0 <= j < s.len() - 1 ==> s.drop_first()[j] == s[j + 1]);
        lemma_player_index_none(s.drop_first());
    }
}

/// Replacing an entity without touching its player marker leaves the
/// player's position in the table unchanged.
pub proof fn lemma_player_index_update(s: Seq<Entity>, i: int, e: Entity)
    requires
        0 <= i < s.len(),
        e.player == s[i].player,
    ensures
        player_index(s.update(i, e)) == player_index(s),
{
    let s2 = s.update(i, e);
    lemma_player_index(s);
    if player_index(s) == -1 {
        assert forall|j: int| 0 <= j < s2.len() implies !((#[trigger] s2[j].player) is Some) by {
            assert(!(s[j].player is Some));
        }
        lemma_player_index_none(s2);
    } else {
        let pi = player_index(s);
        assert(s2[pi].player == s[pi].player);
        assert forall|j: int| 0 <= j < pi implies !((#[trigger] s2[j].player) is Some) by {
            assert(!(s[j].player is Some));
        }
        lemma_player_index_first(s2, pi);
    }
}

} // verus!
