//! The deferred command buffer. Systems record destructions, component
//! edits and spawns here during a tick; `apply_commands` applies the whole
//! batch at the tick boundary, so a system never mutates the table another
//! system is scanning. Destruction is recursive: despawning an entity
//! despawns every entity of its subtree.

use vstd::prelude::*;
use crate::components::{Dead, Decay, valid_decay};
use crate::world::{Entity, MAX_ENTITIES, World, all_valid, parents_before, uniq_ids, valid_entity, wf_world};

verus! {

/// A pending spawn: the entity to create (its `id` and `parent` fields are
/// assigned at apply time) and, for a child, the index of its parent's
/// request earlier in the same batch.
#[derive(Clone, Copy, Debug)]
pub struct SpawnRequest {
    pub proto: Entity,
    pub parent_spawn: Option<usize>,
}

/// Commands a tick records and applies as one batch at its end.
pub struct CommandBuffer {
    /// Roots of subtrees to destroy.
    pub despawns: Vec<u64>,
    /// Entities losing their `Move` component.
    pub remove_moves: Vec<u64>,
    /// Entities gaining the `Dead` marker and a death `Decay`, and losing
    /// their `Move` component.
    pub mark_dead: Vec<(u64, Decay)>,
    /// Entities to create.
    pub spawns: Vec<SpawnRequest>,
}

/// Every pending spawn is a valid entity whose parent request, if any,
/// stands earlier in the batch; every pending death decay is valid.
pub open spec fn wf_cmds(c: CommandBuffer) -> bool {
    &&& forall|i: int|
        0 <= i < c.spawns@.len() ==> valid_entity((#[trigger] c.spawns@[i]).proto)
            && (c.spawns@[i].parent_spawn is Some ==> c.spawns@[i].parent_spawn->0 < i)
    &&& forall|i: int| 0 <= i < c.mark_dead@.len() ==> valid_decay((#[trigger] c.mark_dead@[i]).1)
}

impl CommandBuffer {
    /// An empty batch.
    pub fn new() -> (c: CommandBuffer)
        ensures
            c.despawns@.len() == 0,
            c.remove_moves@.len() == 0,
            c.mark_dead@.len() == 0,
            c.spawns@.len() == 0,
            wf_cmds(c),
    {
        CommandBuffer {
            despawns: Vec::new(),
            remove_moves: Vec::new(),
            mark_dead: Vec::new(),
            spawns: Vec::new(),
        }
    }
}

/// Identifiers of every entity of the table doomed by the given subtree
/// roots: the roots themselves and, walking the table in order, every
/// entity whose parent is already doomed. Because a parent always stands
/// before its children, one pass finds the whole subtree.
pub open spec fn doomed_list(s: Seq<Entity>, roots: Seq<u64>) -> Seq<u64>
    decreases s.len(),
{
    if s.len() == 0 {
        roots
    } else {
        let prev = doomed_list(s.drop_last(), roots);
        let e = s.last();
        if !prev.contains(e.id) && e.parent is Some && prev.contains(e.parent->0) {
            prev.push(e.id)
        } else {
            prev
        }
    }
}

/// Whether the given subtree roots doom the entity with identifier `id`.
pub open spec fn is_doomed(s: Seq<Entity>, roots: Seq<u64>, id: u64) -> bool {
    doomed_list(s, roots).contains(id)
}

/// The table with every doomed entity removed, in order.
pub open spec fn filter_not_doomed(s: Seq<Entity>, dl: Seq<u64>) -> Seq<Entity>
    decreases s.len(),
{
    if s.len() == 0 {
        Seq::empty()
    } else {
        let prev = filter_not_doomed(s.drop_last(), dl);
        if dl.contains(s.last().id) {
            prev
        } else {
            prev.push(s.last())
        }
    }
}

/// The table after the despawn batch: every entity whose identifier the
/// roots doom, directly or through an ancestor, is removed.
pub open spec fn survivors(s: Seq<Entity>, roots: Seq<u64>) -> Seq<Entity> {
    filter_not_doomed(s, doomed_list(s, roots))
}

/// An identifier doomed in a prefix stays doomed in every longer prefix.
proof fn lemma_doomed_monotone(s: Seq<Entity>, roots: Seq<u64>, k: int, m: int, x: u64)
    requires
        0 <= k <= m <= s.len(),
        doomed_list(s.take(k), roots).contains(x),
    ensures
        doomed_list(s.take(m), roots).contains(x),
    decreases m,
{
    broadcast use vstd::seq_lib::lemma_seq_contains_after_push;

    if m > k {
        assert(s.take(m).drop_last() =~= s.take(m - 1));
        lemma_doomed_monotone(s, roots, k, m - 1, x);
    } else {
        assert(s.take(m) == s.take(k));
    }
}

/// A doomed identifier is a root or belongs to an entity of the prefix.
proof fn lemma_doomed_origin(s: Seq<Entity>, roots: Seq<u64>, k: int, x: u64)
    requires
        0 <= k <= s.len(),
        doomed_list(s.take(k), roots).contains(x),
    ensures
        roots.contains(x) || exists|i: int| 0 <= i < k && (#[trigger] s[i].id) == x,
    decreases k,
{
    broadcast use vstd::seq_lib::lemma_seq_contains_after_push;

    if k > 0 {
        assert(s.take(k).drop_last() =~= s.take(k - 1));
        assert(s.take(k).last() == s[k - 1]);
        if doomed_list(s.take(k - 1), roots).contains(x) {
            lemma_doomed_origin(s, roots, k - 1, x);
        }
    } else {
        assert(s.take(0) =~= Seq::<Entity>::empty());
    }
}

/// The doom of an entity's identifier is settled by the prefix ending at
/// the entity itself: no later step can add it.
proof fn lemma_doomed_settled(s: Seq<Entity>, roots: Seq<u64>, j: int, k: int)
    requires
        uniq_ids(s),
        0 <= j < k <= s.len(),
        doomed_list(s.take(k), roots).contains(s[j].id),
    ensures
        doomed_list(s.take(j + 1), roots).contains(s[j].id),
    decreases k,
{
    broadcast use vstd::seq_lib::lemma_seq_contains_after_push;

    if k > j + 1 {
        assert(s.take(k).drop_last() =~= s.take(k - 1));
        assert(s.take(k).last() == s[k - 1]);
        assert(s[k - 1].id != s[j].id);
        assert(doomed_list(s.take(k - 1), roots).contains(s[j].id));
        lemma_doomed_settled(s, roots, j, k - 1);
    }
}

/// Dooming is closed under the parent relation: if an entity's parent is
/// doomed, the entity is doomed too.
pub proof fn lemma_doomed_closed(s: Seq<Entity>, roots: Seq<u64>)
    requires
        uniq_ids(s),
        parents_before(s),
    ensures
        forall|i: int|
            0 <= i < s.len() && (#[trigger] s[i].parent) is Some && is_doomed(s, roots, s[i].parent->0)
                ==> is_doomed(s, roots, s[i].id),
{
    broadcast use vstd::seq_lib::lemma_seq_contains_after_push;

    assert forall|i: int|
        0 <= i < s.len() && (#[trigger] s[i].parent) is Some && is_doomed(s, roots, s[i].parent->0)
            implies is_doomed(s, roots, s[i].id) by {
        let p = s[i].parent->0;
        let j = choose|j: int| 0 <= j < i && (#[trigger] s[j].id) == p;
        assert(s.take(s.len() as int) =~= s);
        lemma_doomed_settled(s, roots, j, s.len() as int);
        lemma_doomed_monotone(s, roots, j + 1, i, p);
        assert(s.take(i + 1).drop_last() =~= s.take(i));
        assert(s.take(i + 1).last() == s[i]);
        lemma_doomed_monotone(s, roots, i + 1, s.len() as int, s[i].id);
    }
}

/// What removing the doomed entities leaves: a subsequence of the table,
/// with identifiers still unique, parents still ahead of children, no
/// doomed entity retained, and no spared entity dropped.
pub proof fn lemma_filter_not_doomed(s: Seq<Entity>, dl: Seq<u64>)
    requires
        uniq_ids(s),
        parents_before(s),
        forall|i: int|
            0 <= i < s.len() && (#[trigger] s[i].parent) is Some && dl.contains(s[i].parent->0)
                ==> dl.contains(s[i].id),
    ensures
        ({
            let r = filter_not_doomed(s, dl);
            &&& r.len() <= s.len()
            &&& forall|a: int|
                0 <= a < r.len() ==> exists|i: int| 0 <= i < s.len() && (#[trigger] r[a]) == s[i]
            &&& uniq_ids(r)
            &&& parents_before(r)
            &&& forall|a: int| 0 <= a < r.len() ==> !dl.contains((#[trigger] r[a]).id)
            &&& forall|i: int|
                0 <= i < s.len() && !dl.contains((#[trigger] s[i]).id) ==> r.contains(s[i])
        }),
    decreases s.len(),
{
    broadcast use vstd::seq_lib::lemma_seq_contains_after_push;

    if s.len() > 0 {
        let p = s.drop_last();
        let e = s.last();
        let rp = filter_not_doomed(p, dl);
        let r = filter_not_doomed(s, dl);
        assert(forall|i: int| 0 <= i < p.len() ==> #[trigger] p[i] == s[i]);
        assert forall|i: int|
            0 <= i < p.len() && (#[trigger] p[i].parent) is Some implies exists|j: int|
                0 <= j < i && (#[trigger] p[j].id) == p[i].parent->0 by {
            let j = choose|j: int| 0 <= j < i && (#[trigger] s[j].id) == s[i].parent->0;
            assert(p[j].id == p[i].parent->0);
        }
        lemma_filter_not_doomed(p, dl);
        if !dl.contains(e.id) {
            assert(r == rp.push(e));
            assert(r[rp.len() as int] == e);
            assert(e == s[s.len() - 1]);
            // the pushed entity's identifier is new among the retained ones
            assert forall|a: int| 0 <= a < rp.len() implies (#[trigger] rp[a]).id != e.id by {
                let i = choose|i: int| 0 <= i < p.len() && (#[trigger] rp[a]) == p[i];
                assert(s[i] == p[i]);
            }
            // its parent, being spared too, was retained earlier
            if e.parent is Some {
                let q = e.parent->0;
                let j = choose|j: int|
                    0 <= j < s.len() - 1 && (#[trigger] s[j].id) == q;
                assert(!dl.contains(q));
                assert(p[j] == s[j]);
                assert(rp.contains(p[j]));
                let b = choose|b: int| 0 <= b < rp.len() && (#[trigger] rp[b]) == p[j];
                assert(r[b].id == q);
            }
            assert forall|a: int|
                0 <= a < r.len() && (#[trigger] r[a].parent) is Some implies exists|b: int|
                    0 <= b < a && (#[trigger] r[b].id) == r[a].parent->0 by {
                if a < rp.len() {
                    assert(rp[a] == r[a]);
                    let b = choose|b: int| 0 <= b < a && (#[trigger] rp[b].id) == rp[a].parent->0;
                    assert(r[b].id == r[a].parent->0);
                }
            }
            assert forall|a: int|
                0 <= a < r.len() implies exists|i: int|
                    0 <= i < s.len() && (#[trigger] r[a]) == s[i] by {
                if a < rp.len() {
                    let i = choose|i: int| 0 <= i < p.len() && (#[trigger] rp[a]) == p[i];
                    assert(r[a] == s[i]);
                } else {
                    assert(r[a] == s[s.len() - 1]);
                }
            }
            assert forall|i: int|
                0 <= i < s.len() && !dl.contains((#[trigger] s[i]).id) implies r.contains(
                s[i],
            ) by {
                if i < s.len() - 1 {
                    assert(p[i] == s[i]);
                    assert(rp.contains(p[i]));
                    assert(rp.push(e).contains(p[i]));
                } else {
                    assert(rp.push(e).contains(e));
                }
            }
        } else {
            assert(r == rp);
            assert forall|a: int|
                0 <= a < r.len() implies exists|i: int|
                    0 <= i < s.len() && (#[trigger] r[a]) == s[i] by {
                let i = choose|i: int| 0 <= i < p.len() && (#[trigger] rp[a]) == p[i];
                assert(r[a] == s[i]);
            }
            assert forall|i: int|
                0 <= i < s.len() && !dl.contains((#[trigger] s[i]).id) implies r.contains(
                s[i],
            ) by {
                assert(i < s.len() - 1);
                assert(p[i] == s[i]);
                assert(rp.contains(p[i]));
            }
        }
    }
}

/// The entity a spawn request becomes when the batch is applied with
/// identifiers starting at `base`: request `i` gets identifier `base + i`,
/// and a child points at the identifier its parent request got.
pub open spec fn spawned_entity(req: SpawnRequest, base: int, i: int) -> Entity {
    Entity {
        id: (base + i) as u64,
        parent: match req.parent_spawn {
            Some(k) => Some((base + k) as u64),
            None => None,
        },
        ..req.proto
    }
}

/// The entities a spawn batch becomes, in order.
pub open spec fn spawned_seq(reqs: Seq<SpawnRequest>, base: int) -> Seq<Entity> {
    Seq::new(reqs.len(), |i: int| spawned_entity(reqs[i], base, i))
}

/// The death decay of the first pending mark for `id`, if any.
pub open spec fn find_mark(marks: Seq<(u64, Decay)>, id: u64) -> Option<Decay>
    decreases marks.len(),
{
    if marks.len() == 0 {
        None
    } else if marks[0].0 == id {
        Some(marks[0].1)
    } else {
        find_mark(marks.drop_first(), id)
    }
}

/// An entity after the component edits of the batch: it loses `Move` if a
/// removal or a death mark names it, and a death mark also gives it the
/// `Dead` marker and its death decay.
pub open spec fn edited_entity(e: Entity, removes: Seq<u64>, marks: Seq<(u64, Decay)>) -> Entity {
    let stripped = if removes.contains(e.id) || find_mark(marks, e.id) is Some {
        Entity { mv: None, ..e }
    } else {
        e
    };
    match find_mark(marks, e.id) {
        Some(d) => Entity { decay: Some(d), dead: Some(Dead), ..stripped },
        None => stripped,
    }
}

/// Whether `v` holds `id`.
pub fn contains_id(v: &Vec<u64>, id: u64) -> (b: bool)
    ensures
        b == v@.contains(id),
{
    let n = v.len();
    let mut k: usize = 0;
    while k < n
        invariant
            n == v@.len(),
            0 <= k <= n,
            forall|i: int| 0 <= i < k ==> (#[trigger] v@[i]) != id,
        decreases n - k,
    {
        if v[k] == id {
            return true;
        }
        k = k + 1;
    }
    false
}

/// First pending death mark for `id`, if any.
fn find_mark_exec(marks: &Vec<(u64, Decay)>, id: u64) -> (r: Option<Decay>)
    ensures
        r == find_mark(marks@, id),
    decreases marks@.len(),
{
    let n = marks.len();
    assert(marks@.skip(0) =~= marks@);
    let mut k: usize = 0;
    while k < n
        invariant
            n == marks@.len(),
            0 <= k <= n,
            find_mark(marks@.skip(k as int), id) == find_mark(marks@, id),
        decreases n - k,
    {
        if marks[k].0 == id {
            assert(marks@.skip(k as int)[0] == marks@[k as int]);
            return Some(marks[k].1);
        }
        assert(marks@.skip(k as int).drop_first() =~= marks@.skip(k as int + 1));
        assert(marks@.skip(k as int)[0] == marks@[k as int]);
        k = k + 1;
    }
    assert(marks@.skip(n as int) =~= Seq::empty());
    None
}

/// The identifiers the despawn batch dooms, computed in one pass.
fn compute_doomed(entities: &Vec<Entity>, roots: &Vec<u64>) -> (d: Vec<u64>)
    ensures
        d@ == doomed_list(entities@, roots@),
{
    let s = entities;
    let n = s.len();
    let mut d: Vec<u64> = Vec::new();
    let mut k: usize = 0;
    while k < roots.len()
        invariant
            0 <= k <= roots@.len(),
            d@ == roots@.take(k as int),
        decreases roots@.len() - k,
    {
        d.push(roots[k]);
        proof {
            assert(roots@.take(k + 1) =~= roots@.take(k as int).push(roots@[k as int]));
        }
        k = k + 1;
    }
    proof {
        assert(roots@.take(roots@.len() as int) =~= roots@);
        assert(entities@.take(0) =~= Seq::<Entity>::empty());
    }
    let mut k: usize = 0;
    while k < n
        invariant
            n == s@.len(),
            0 <= k <= n,
            d@ == doomed_list(s@.take(k as int), roots@),
        decreases n - k,
    {
        let e = &s[k];
        let already = contains_id(&d, e.id);
        let doomed_parent = match e.parent {
            Some(p) => contains_id(&d, p),
            None => false,
        };
        if !already && e.parent.is_some() && doomed_parent {
            d.push(e.id);
        }
        proof {
            assert(s@.take(k + 1).drop_last() =~= s@.take(k as int));
            assert(s@.take(k + 1).last() == s@[k as int]);
        }
        k = k + 1;
    }
    proof {
        assert(s@.take(n as int) =~= s@);
    }
    d
}

/// Apply one component edit to an entity.
fn edit_entity(e: &Entity, removes: &Vec<u64>, marks: &Vec<(u64, Decay)>) -> (r: Entity)
    ensures
        r == edited_entity(*e, removes@, marks@),
{
    let mut r = *e;
    let mark = find_mark_exec(marks, e.id);
    let rm = contains_id(removes, e.id);
    if rm || mark.is_some() {
        r.mv = None;
    }
    if let Some(d) = mark {
        r.decay = Some(d);
        r.dead = Some(Dead);
    }
    r
}

/// Apply a whole batch at the tick boundary: first the recursive despawns,
/// then the component edits on the spared entities, then the spawns, which
/// take fresh identifiers starting at the store's `next_id`.
pub fn apply_commands(w: &mut World, c: &CommandBuffer)
    requires
        wf_world(*old(w)),
        wf_cmds(*c),
        old(w).entities@.len() + c.spawns@.len() <= MAX_ENTITIES,
        old(w).next_id + c.spawns@.len() <= u64::MAX,
    ensures
        wf_world(*final(w)),
        final(w).entities@ == survivors(old(w).entities@, c.despawns@).map_values(
            |e: Entity| edited_entity(e, c.remove_moves@, c.mark_dead@),
        ) + spawned_seq(c.spawns@, old(w).next_id as int),
        final(w).next_id == old(w).next_id + c.spawns@.len(),
{
    broadcast use vstd::seq_lib::lemma_seq_contains_after_push;

    let ghost s0 = w.entities@;
    let ghost dl = doomed_list(s0, c.despawns@);
    let ghost editf = |e: Entity| edited_entity(e, c.remove_moves@, c.mark_dead@);
    proof {
        lemma_doomed_closed(s0, c.despawns@);
        lemma_filter_not_doomed(s0, dl);
    }
    let doomed = compute_doomed(&w.entities, &c.despawns);
    let n = w.entities.len();
    let mut out: Vec<Entity> = Vec::new();
    let mut k: usize = 0;
    while k < n
        invariant
            n == w.entities@.len(),
            w.entities@ == s0,
            doomed@ == dl,
            0 <= k <= n,
            out@ == filter_not_doomed(s0.take(k as int), dl).map_values(editf),
            editf == (|e: Entity| edited_entity(e, c.remove_moves@, c.mark_dead@)),
        decreases n - k,
    {
        let e = &w.entities[k];
        proof {
            assert(s0.take(k + 1).drop_last() =~= s0.take(k as int));
            assert(s0.take(k + 1).last() == s0[k as int]);
        }
        if !contains_id(&doomed, e.id) {
            let r = edit_entity(e, &c.remove_moves, &c.mark_dead);
            out.push(r);
            proof {
                let fk = filter_not_doomed(s0.take(k as int), dl);
                assert(filter_not_doomed(s0.take(k + 1), dl) == fk.push(s0[k as int]));
                assert(fk.push(s0[k as int]).map_values(editf) =~= fk.map_values(editf).push(
                    editf(s0[k as int]),
                ));
            }
        }
        k = k + 1;
    }
    proof {
        assert(s0.take(n as int) =~= s0);
    }
    w.entities = out;
    let ghost base = w.next_id as int;
    let ghost mid = w.entities@;
    let m = c.spawns.len();
    let mut j: usize = 0;
    while j < m
        invariant
            m == c.spawns@.len(),
            wf_cmds(*c),
            0 <= j <= m,
            w.next_id == base + j,
            0 <= base,
            base + m <= u64::MAX,
            w.entities@ == mid + spawned_seq(c.spawns@.take(j as int), base),
            mid.len() + m <= MAX_ENTITIES,
        decreases m - j,
    {
        let req = &c.spawns[j];
        let mut e = req.proto;
        e.id = w.next_id;
        if let Some(k) = req.parent_spawn {
            assert(c.spawns@[j as int].parent_spawn->0 < j as int);
            e.parent = Some(w.next_id - ((j - k) as u64));
        } else {
            e.parent = None;
        }
        w.entities.push(e);
        w.next_id = w.next_id + 1;
        proof {
            assert(e == spawned_entity(c.spawns@[j as int], base, j as int));
            assert(spawned_seq(c.spawns@.take(j + 1), base) =~= spawned_seq(
                c.spawns@.take(j as int),
                base,
            ).push(e));
            assert(w.entities@ =~= mid + spawned_seq(c.spawns@.take(j + 1), base));
        }
        j = j + 1;
    }
    proof {
        assert(c.spawns@.take(m as int) =~= c.spawns@);
        lemma_apply_wf(s0, dl, c.despawns@, c.remove_moves@, c.mark_dead@, c.spawns@, base, *w);
    }
}

/// The applied batch leaves the store well-formed.
proof fn lemma_apply_wf(
    s0: Seq<Entity>,
    dl: Seq<u64>,
    roots: Seq<u64>,
    removes: Seq<u64>,
    marks: Seq<(u64, Decay)>,
    reqs: Seq<SpawnRequest>,
    base: int,
    w: World,
)
    requires
        dl == doomed_list(s0, roots),
        all_valid(s0),
        uniq_ids(s0),
        parents_before(s0),
        forall|i: int| 0 <= i < s0.len() ==> (#[trigger] s0[i].id) < base,
        forall|i: int|
            0 <= i < reqs.len() ==> valid_entity((#[trigger] reqs[i]).proto)
                && (reqs[i].parent_spawn is Some ==> reqs[i].parent_spawn->0 < i),
        forall|i: int| 0 <= i < marks.len() ==> valid_decay((#[trigger] marks[i]).1),
        s0.len() + reqs.len() <= MAX_ENTITIES,
        base + reqs.len() <= u64::MAX,
        0 <= base,
        w.entities@ == filter_not_doomed(s0, dl).map_values(
            |e: Entity| edited_entity(e, removes, marks),
        ) + spawned_seq(reqs, base),
        w.next_id == base + reqs.len(),
    ensures
        wf_world(w),
{
    let editf = |e: Entity| edited_entity(e, removes, marks);
    let f = filter_not_doomed(s0, dl);
    let fe = f.map_values(editf);
    let sp = spawned_seq(reqs, base);
    lemma_doomed_closed(s0, roots);
    lemma_filter_not_doomed(s0, dl);
    // edits keep identifier, parent and validity
    assert forall|a: int| 0 <= a < fe.len() implies (#[trigger] fe[a]).id == f[a].id
        && fe[a].parent == f[a].parent && valid_entity(fe[a]) by {
        let i = choose|i: int| 0 <= i < s0.len() && (#[trigger] f[a]) == s0[i];
        lemma_find_mark_valid(marks, f[a].id);
    }
    assert forall|a: int| 0 <= a < f.len() implies (#[trigger] f[a]).id < base by {
        let i = choose|i: int| 0 <= i < s0.len() && (#[trigger] f[a]) == s0[i];
    }
    let s = w.entities@;
    assert(s.len() <= MAX_ENTITIES);
    assert forall|i: int| 0 <= i < s.len() implies valid_entity(#[trigger] s[i]) by {
        if i >= fe.len() {
            assert(s[i] == spawned_entity(reqs[i - fe.len()], base, i - fe.len()));
        }
    }
    assert forall|i: int| 0 <= i < s.len() implies (#[trigger] s[i].id) < w.next_id by {
        if i >= fe.len() {
            assert(s[i] == spawned_entity(reqs[i - fe.len()], base, i - fe.len()));
        }
    }
    assert forall|i: int, j: int| 0 <= i < j < s.len() implies (#[trigger] s[i].id) != (
    #[trigger] s[j].id) by {
        if i < fe.len() && j < fe.len() {
            assert(fe[i].id == f[i].id && fe[j].id == f[j].id);
        } else if i < fe.len() {
            assert(s[j] == spawned_entity(reqs[j - fe.len()], base, j - fe.len()));
            assert(s[i].id < base <= s[j].id);
        } else {
            assert(s[i] == spawned_entity(reqs[i - fe.len()], base, i - fe.len()));
            assert(s[j] == spawned_entity(reqs[j - fe.len()], base, j - fe.len()));
        }
    }
    assert forall|i: int|
        0 <= i < s.len() && (#[trigger] s[i].parent) is Some implies exists|j: int|
            0 <= j < i && (#[trigger] s[j].id) == s[i].parent->0 by {
        if i < fe.len() {
            let b = choose|b: int| 0 <= b < i && (#[trigger] f[b].id) == f[i].parent->0;
            assert(s[b].id == s[i].parent->0);
        } else {
            let q = i - fe.len();
            assert(s[i] == spawned_entity(reqs[q], base, q));
            let k = reqs[q].parent_spawn->0 as int;
            assert(s[fe.len() + k] == spawned_entity(reqs[k], base, k));
            assert(0 <= fe.len() + k < i && s[fe.len() + k].id == s[i].parent->0);
        }
    }
}

/// A pending death mark found for an entity is valid.
proof fn lemma_find_mark_valid(marks: Seq<(u64, Decay)>, id: u64)
    requires
        forall|i: int| 0 <= i < marks.len() ==> valid_decay((#[trigger] marks[i]).1),
    ensures
        find_mark(marks, id) is Some ==> valid_decay(find_mark(marks, id)->0),
    decreases marks.len(),
{
    if marks.len() > 0 && marks[0].0 != id {
        assert(forall|i: int|
            0 <= i < marks.len() - 1 ==> (#[trigger] marks.drop_first()[i]) == marks[i + 1]);
        lemma_find_mark_valid(marks.drop_first(), id);
    }
}

} // verus!
