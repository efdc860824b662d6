//! The auxiliary-mapping hook: a deferred write that populates a secondary
//! identifier scheme for newly introduced changesets, applied if and only
//! if the pointer transaction is accepted by the store.
//!
//! Applicable only to public bookmarks.  The hook builder derives the
//! changesets newly reachable from the target that carry an auxiliary
//! identifier; the hook itself performs no writes until the transaction
//! commits it.

use vstd::prelude::*;
use vstd::set_lib::lemma_len_subset;

use crate::assoc::{keyed_map, lemma_keyed_map_dom, lemma_keyed_map_value, uniq_keys};
use crate::changeset_map::ChangesetMap;
use crate::errors::BookmarkMovementError;
use crate::store::BookmarkStore;
use crate::types::{AuxId, ChangesetId, ChangesetRecord};

verus! {

/// Policy for the public namespace: whether a dependent global-numbering
/// feature is enabled on this call path, and whether pointer updates
/// should populate the auxiliary mapping.
#[derive(Clone, Copy, PartialEq, Eq, Structural, Debug)]
pub struct PushrebaseParams {
    pub assign_global_numbers: bool,
    pub populate_aux_mapping: bool,
}

impl PushrebaseParams {
    pub fn new(assign_global_numbers: bool, populate_aux_mapping: bool) -> (r: PushrebaseParams)
        ensures
            r.assign_global_numbers == assign_global_numbers,
            r.populate_aux_mapping == populate_aux_mapping,
    {
        PushrebaseParams { assign_global_numbers, populate_aux_mapping }
    }
}

/// An operation that would allocate global numbers is incompatible with
/// client-driven auxiliary-mapping population: fail fast with a
/// configuration conflict unless the feature is disabled.
pub fn require_global_numbering_disabled(params: &PushrebaseParams) -> (r: Result<
    (),
    BookmarkMovementError,
>)
    ensures
        !params.assign_global_numbers ==> r == Ok::<(), BookmarkMovementError>(()),
        params.assign_global_numbers ==> r == Err::<(), BookmarkMovementError>(
            BookmarkMovementError::ConfigurationConflict,
        ),
{
    if params.assign_global_numbers {
        Err(BookmarkMovementError::ConfigurationConflict)
    } else {
        Ok(())
    }
}

/// `to` is reached from `from` in at most `n` parent steps, staying inside
/// the mapping `m`.
pub open spec fn reaches(
    m: Map<ChangesetId, ChangesetRecord>,
    from: ChangesetId,
    to: ChangesetId,
    n: nat,
) -> bool
    decreases n,
{
    m.dom().contains(from) && (from == to || (n > 0 && exists|p: ChangesetId|
        #[trigger] m[from].parents@.contains(p) && reaches(m, p, to, (n - 1) as nat)))
}

/// `to` is reachable from `from` by parent steps inside `m`.
pub open spec fn reachable(
    m: Map<ChangesetId, ChangesetRecord>,
    from: ChangesetId,
    to: ChangesetId,
) -> bool {
    exists|n: nat| reaches(m, from, to, n)
}

/// The hook derives an entry for `c`: it is newly reachable from the
/// target and carries an auxiliary identifier.
pub open spec fn derives_entry(
    m: Map<ChangesetId, ChangesetRecord>,
    target: ChangesetId,
    c: ChangesetId,
) -> bool {
    reachable(m, target, c) && m[c].aux_id is Some
}

/// The auxiliary entries the hook derives from `target` and the
/// new-changesets mapping `m`.
pub open spec fn spec_hook_map(
    m: Map<ChangesetId, ChangesetRecord>,
    target: ChangesetId,
) -> Map<ChangesetId, AuxId> {
    Map::new(|c: ChangesetId| derives_entry(m, target, c), |c: ChangesetId| m[c].aux_id.unwrap())
}

/// The hook's write cannot apply: the store already binds one of its
/// changesets to a different auxiliary identifier.
pub open spec fn aux_conflict(aux: Map<ChangesetId, AuxId>, hook: Map<ChangesetId, AuxId>) -> bool {
    exists|c: ChangesetId|
        #[trigger] hook.dom().contains(c) && aux.dom().contains(c) && aux[c] != hook[c]
}

/// A step of reachability may be appended at the far end of a walk.
proof fn lemma_reaches_extend(
    m: Map<ChangesetId, ChangesetRecord>,
    from: ChangesetId,
    to: ChangesetId,
    p: ChangesetId,
    n: nat,
)
    requires
        reaches(m, from, to, n),
        m[to].parents@.contains(p),
        m.dom().contains(p),
    ensures
        reaches(m, from, p, n + 1),
    decreases n,
{
    if from == to {
        assert(reaches(m, p, p, n));
    } else {
        let q = choose|q: ChangesetId|
            #[trigger] m[from].parents@.contains(q) && reaches(m, q, to, (n - 1) as nat);
        lemma_reaches_extend(m, q, to, p, (n - 1) as nat);
    }
}

/// A set of changesets that contains `from` and is closed under parent
/// steps inside `m` contains everything reachable from `from`.
proof fn lemma_closed_seq_contains(
    m: Map<ChangesetId, ChangesetRecord>,
    vs: Seq<ChangesetId>,
    from: ChangesetId,
    to: ChangesetId,
    n: nat,
)
    requires
        reaches(m, from, to, n),
        vs.contains(from),
        forall|k: int, p: ChangesetId|
            0 <= k < vs.len() && #[trigger] m[vs[k]].parents@.contains(p) && m.dom().contains(p)
                ==> vs.contains(p),
    ensures
        vs.contains(to),
    decreases n,
{
    if from != to {
        let q = choose|q: ChangesetId|
            #[trigger] m[from].parents@.contains(q) && reaches(m, q, to, (n - 1) as nat);
        let k = choose|k: int| 0 <= k < vs.len() && vs[k] == from;
        assert(m[vs[k]].parents@.contains(q));
        lemma_closed_seq_contains(m, vs, q, to, (n - 1) as nat);
    }
}

/// The deferred side effect, as a value: the auxiliary entries to write
/// when — and only when — the pointer transaction is accepted.
#[derive(Debug)]
pub struct AuxMappingHook {
    entries: Vec<(ChangesetId, AuxId)>,
}

impl View for AuxMappingHook {
    type V = Map<ChangesetId, AuxId>;

    closed spec fn view(&self) -> Map<ChangesetId, AuxId> {
        keyed_map(self.entries@)
    }
}

impl AuxMappingHook {
    /// The hook carries one entry per changeset.
    pub closed spec fn wf(self) -> bool {
        uniq_keys(self.entries@)
    }

    /// Whether this hook's write would conflict with what the store
    /// already binds.
    pub fn conflicts_with(&self, store: &BookmarkStore) -> (r: bool)
        requires
            self.wf(),
        ensures
            r == aux_conflict(store.aux_map(), self@),
    {
        let n = self.entries.len();
        let mut i: usize = 0;
        while i < n
            invariant
                i <= n,
                n == self.entries@.len(),
                self.wf(),
                forall|j: int|
                    0 <= j < i ==> match store.aux_map().dom().contains(
                        #[trigger] self.entries@[j].0,
                    ) {
                        true => store.aux_map()[self.entries@[j].0] == self.entries@[j].1,
                        false => true,
                    },
            decreases n - i,
        {
            let (c, a) = self.entries[i];
            match store.get_aux(c) {
                Some(bound) => {
                    if bound.id != a.id {
                        proof {
                            assert(forall|j: int|
                                i < j < self.entries@.len() ==> self.entries@[j].0@
                                    != self.entries@[i as int].0@);
                            lemma_keyed_map_value(self.entries@, i as int);
                            assert(self@.dom().contains(c) && store.aux_map().dom().contains(c)
                                && store.aux_map()[c] != self@[c]);
                        }
                        return true;
                    }
                },
                None => {},
            }
            i += 1;
        }
        proof {
            if aux_conflict(store.aux_map(), self@) {
                let c = choose|c: ChangesetId|
                    #[trigger] self@.dom().contains(c) && store.aux_map().dom().contains(c)
                        && store.aux_map()[c] != self@[c];
                lemma_keyed_map_dom(self.entries@, c);
                let j = choose|j: int|
                    0 <= j < self.entries@.len() && self.entries@[j].0@ == c;
                assert(forall|k: int|
                    j < k < self.entries@.len() ==> self.entries@[k].0@ != self.entries@[j].0@);
                lemma_keyed_map_value(self.entries@, j);
            }
        }
        false
    }

    /// Write every entry into the store's auxiliary mapping.  Only the
    /// transaction calls this, strictly after the store accepted the
    /// pointer write it was staged with.
    pub(crate) fn apply(self, store: &mut BookmarkStore)
        requires
            self.wf(),
            !aux_conflict(old(store).aux_map(), self@),
        ensures
            final(store).aux_map() == old(store).aux_map().union_prefer_right(self@),
            final(store).scratch_map() == old(store).scratch_map(),
            final(store).public_map() == old(store).public_map(),
    {
        let n = self.entries.len();
        let mut i: usize = 0;
        while i < n
            invariant
                i <= n,
                n == self.entries@.len(),
                self.wf(),
                !aux_conflict(old(store).aux_map(), self@),
                store.aux_map() == old(store).aux_map().union_prefer_right(
                    keyed_map(self.entries@.subrange(0, i as int)),
                ),
                store.scratch_map() == old(store).scratch_map(),
                store.public_map() == old(store).public_map(),
            decreases n - i,
        {
            let (c, a) = self.entries[i];
            proof {
                assert(forall|j: int|
                    i < j < self.entries@.len() ==> self.entries@[j].0@
                        != self.entries@[i as int].0@);
                lemma_keyed_map_value(self.entries@, i as int);
                assert(self@[c] == a);
                lemma_keyed_map_dom(self.entries@.subrange(0, i as int), c);
                assert(forall|j: int|
                    0 <= j < i ==> self.entries@.subrange(0, i as int)[j] == self.entries@[j]);
                assert(!keyed_map(self.entries@.subrange(0, i as int)).dom().contains(c));
                crate::assoc::lemma_keyed_map_push(
                    self.entries@.subrange(0, i as int),
                    (c, a),
                );
                assert(self.entries@.subrange(0, i as int).push((c, a)) =~= self.entries@.subrange(
                    0,
                    i as int + 1,
                ));
            }
            match store.get_aux(c) {
                Some(bound) => {
                    proof {
                        assert(store.aux_map()[c] == bound);
                        assert(old(store).aux_map().dom().contains(c));
                        assert(old(store).aux_map()[c] == bound);
                        assert(self@.dom().contains(c));
                        assert(bound == a);
                        assert(store.aux_map().insert(c, a) =~= store.aux_map());
                        assert(old(store).aux_map().union_prefer_right(
                            keyed_map(self.entries@.subrange(0, i as int + 1)),
                        ) =~= store.aux_map());
                    }
                },
                None => {
                    proof {
                        assert(old(store).aux_map().union_prefer_right(
                            keyed_map(self.entries@.subrange(0, i as int + 1)),
                        ) =~= store.aux_map().insert(c, a));
                    }
                    store.insert_aux(c, a);
                },
            }
            i += 1;
        }
        proof {
            assert(self.entries@.subrange(0, n as int) =~= self.entries@);
        }
    }
}

/// Membership test for a worklist of changeset ids.
fn contains_id(ids: &Vec<ChangesetId>, id: ChangesetId) -> (r: bool)
    ensures
        r == ids@.contains(id),
{
    let mut i: usize = 0;
    while i < ids.len()
        invariant
            i <= ids@.len(),
            forall|j: int| 0 <= j < i ==> ids@[j] != id,
        decreases ids@.len() - i,
    {
        if ids[i] == id {
            return true;
        }
        i += 1;
    }
    false
}

/// Pushing keeps every element, and adds the pushed one.
proof fn lemma_push_contains(s: Seq<ChangesetId>, x: ChangesetId, y: ChangesetId)
    requires
        s.contains(y) || y == x,
    ensures
        s.push(x).contains(y),
{
    if s.contains(y) {
        let j = choose|j: int| 0 <= j < s.len() && s[j] == y;
        assert(s.push(x)[j] == y);
    } else {
        assert(s.push(x)[s.len() as int] == y);
    }
}

/// A duplicate-free sequence of ids drawn from a finite domain is no
/// longer than the domain.
proof fn lemma_visited_bound(vs: Seq<ChangesetId>, m: Map<ChangesetId, ChangesetRecord>)
    requires
        vs.no_duplicates(),
        m.dom().finite(),
        forall|k: int| 0 <= k < vs.len() ==> m.dom().contains(#[trigger] vs[k]),
    ensures
        vs.len() <= m.dom().len(),
{
    vs.unique_seq_to_set();
    assert forall|x: ChangesetId| vs.to_set().contains(x) implies m.dom().contains(x) by {
        let k = choose|k: int| 0 <= k < vs.len() && vs[k] == x;
    }
    lemma_len_subset(vs.to_set(), m.dom());
}

/// What the hook builder returns: no hook when population is switched
/// off, when the target is already mapped, or when nothing needs to be
/// derived; otherwise the derived entries.
pub open spec fn spec_prepared_hook(
    store: BookmarkStore,
    params: PushrebaseParams,
    target: ChangesetId,
    m: Map<ChangesetId, ChangesetRecord>,
) -> Option<Map<ChangesetId, AuxId>> {
    if !params.populate_aux_mapping || store.aux_map().dom().contains(target) || spec_hook_map(
        m,
        target,
    ) == Map::<ChangesetId, AuxId>::empty() {
        None
    } else {
        Some(spec_hook_map(m, target))
    }
}

/// Derive the deferred auxiliary-mapping write for a public pointer
/// update: one entry for every changeset reachable from `target` inside
/// `new_changesets` that carries an auxiliary identifier.  Returns no
/// hook when there is nothing to write.
pub fn prepare_aux_mapping_hook(
    store: &BookmarkStore,
    params: &PushrebaseParams,
    target: ChangesetId,
    new_changesets: &ChangesetMap,
) -> (r: Option<AuxMappingHook>)
    ensures
        match r {
            None => spec_prepared_hook(*store, *params, target, new_changesets@) is None,
            Some(h) => h.wf() && Some(h@) == spec_prepared_hook(
                *store,
                *params,
                target,
                new_changesets@,
            ),
        },
{
    if !params.populate_aux_mapping {
        return None;
    }
    match store.get_aux(target) {
        Some(_) => {
            return None;
        },
        None => {},
    }
    let ghost m = new_changesets@;
    proof {
        new_changesets.lemma_finite_dom();
    }
    let mut visited: Vec<ChangesetId> = Vec::new();
    let mut queue: Vec<ChangesetId> = Vec::new();
    if new_changesets.contains(target) {
        proof {
            assert(reaches(m, target, target, 0));
        }
        visited.push(target);
        queue.push(target);
        proof {
            assert(visited@[0] == target);
            assert(visited@.contains(target));
            assert(queue@[0] == target);
            lemma_visited_bound(visited@, m);
        }
    }
    while queue.len() > 0
        invariant
            new_changesets@ == m,
            m.dom().finite(),
            visited@.no_duplicates(),
            queue@.no_duplicates(),
            forall|k: int|
                0 <= k < visited@.len() ==> m.dom().contains(#[trigger] visited@[k]) && reachable(
                    m,
                    target,
                    visited@[k],
                ),
            forall|k: int| 0 <= k < queue@.len() ==> visited@.contains(#[trigger] queue@[k]),
            forall|k: int, p: ChangesetId|
                0 <= k < visited@.len() && !queue@.contains(visited@[k])
                    && #[trigger] m[visited@[k]].parents@.contains(p) && m.dom().contains(p)
                    ==> visited@.contains(p),
            m.dom().contains(target) ==> visited@.contains(target),
            visited@.len() <= m.dom().len(),
        decreases m.dom().len() - visited@.len(), queue@.len(),
    {
        let ghost queue_head = queue@;
        let ghost visited_head = visited@;
        let c_opt = queue.pop();
        let c = c_opt.unwrap();
        let ghost queue0 = queue@;
        proof {
            assert(queue_head.contains(c));
            let kc = choose|kc: int| 0 <= kc < visited@.len() && visited@[kc] == c;
            assert(m.dom().contains(c));
            assert(reachable(m, target, c));
            assert(!queue0.contains(c)) by {
                if queue0.contains(c) {
                    let j = choose|j: int| 0 <= j < queue0.len() && queue0[j] == c;
                    assert(queue_head[j] == c);
                    assert(queue_head[queue_head.len() - 1] == c);
                }
            }
            assert forall|k: int, p: ChangesetId|
                0 <= k < visited@.len() && visited@[k] != c && !queue0.contains(visited@[k])
                    && #[trigger] m[visited@[k]].parents@.contains(p) && m.dom().contains(
                    p,
                ) implies visited@.contains(p) by {
                let v = visited@[k];
                assert(!queue_head.contains(v)) by {
                    if queue_head.contains(v) {
                        let j = choose|j: int| 0 <= j < queue_head.len() && queue_head[j] == v;
                        if j < queue_head.len() - 1 {
                            assert(queue0[j] == v);
                        }
                    }
                }
            }
        }
        let rec_opt = new_changesets.get(c);
        let rec = rec_opt.unwrap();
        let parents_len = rec.parents.len();
        let mut idx: usize = 0;
        while idx < parents_len
            invariant
                new_changesets@ == m,
                m.dom().finite(),
                *rec == m[c],
                m.dom().contains(c),
                reachable(m, target, c),
                idx <= parents_len,
                parents_len == rec.parents@.len(),
                visited@.no_duplicates(),
                queue@.no_duplicates(),
                forall|k: int|
                    0 <= k < visited@.len() ==> m.dom().contains(#[trigger] visited@[k])
                        && reachable(m, target, visited@[k]),
                forall|k: int| 0 <= k < queue@.len() ==> visited@.contains(#[trigger] queue@[k]),
                !queue@.contains(c),
                visited@.contains(c),
                forall|k: int, p: ChangesetId|
                    0 <= k < visited@.len() && visited@[k] != c && !queue@.contains(visited@[k])
                        && #[trigger] m[visited@[k]].parents@.contains(p) && m.dom().contains(p)
                        ==> visited@.contains(p),
                forall|j: int|
                    0 <= j < idx && m.dom().contains(#[trigger] rec.parents@[j])
                        ==> visited@.contains(rec.parents@[j]),
                m.dom().contains(target) ==> visited@.contains(target),
                visited@.len() <= m.dom().len(),
                visited_head.len() <= visited@.len(),
                queue@.len() == queue0.len() + visited@.len() - visited_head.len(),
            decreases parents_len - idx,
        {
            let p = rec.parents[idx];
            if new_changesets.contains(p) {
                if !contains_id(&visited, p) {
                    let ghost visited_b = visited@;
                    let ghost queue_b = queue@;
                    proof {
                        let n = choose|n: nat| reaches(m, target, c, n);
                        assert(m[c].parents@.contains(p));
                        lemma_reaches_extend(m, target, c, p, n);
                        assert(reaches(m, target, p, n + 1));
                        assert(reachable(m, target, p));
                        assert(visited@.push(p).no_duplicates());
                        assert(queue@.push(p).no_duplicates());
                        lemma_visited_bound(visited@.push(p), m);
                    }
                    visited.push(p);
                    queue.push(p);
                    proof {
                        assert forall|k: int|
                            0 <= k < queue@.len() implies visited@.contains(
                            #[trigger] queue@[k],
                        ) by {
                            if k < queue_b.len() {
                                assert(queue@[k] == queue_b[k]);
                                lemma_push_contains(visited_b, p, queue_b[k]);
                            } else {
                                assert(queue@[k] == p);
                                lemma_push_contains(visited_b, p, p);
                            }
                        }
                        lemma_push_contains(visited_b, p, c);
                        if m.dom().contains(target) {
                            lemma_push_contains(visited_b, p, target);
                        }
                        assert forall|k: int, p2: ChangesetId|
                            0 <= k < visited@.len() && visited@[k] != c && !queue@.contains(
                                visited@[k],
                            ) && #[trigger] m[visited@[k]].parents@.contains(p2)
                            && m.dom().contains(p2) implies visited@.contains(p2) by {
                            if k < visited_b.len() {
                                let v = visited_b[k];
                                assert(visited@[k] == v);
                                assert(!queue_b.contains(v)) by {
                                    if queue_b.contains(v) {
                                        let j = choose|j: int|
                                            0 <= j < queue_b.len() && queue_b[j] == v;
                                        assert(queue@[j] == v);
                                    }
                                }
                                assert(visited_b.contains(p2));
                                lemma_push_contains(visited_b, p, p2);
                            } else {
                                assert(visited@[k] == p);
                                assert(queue@[queue@.len() - 1] == p);
                                assert(queue@.contains(visited@[k]));
                            }
                        }
                        assert forall|j: int|
                            0 <= j < idx + 1 && m.dom().contains(
                                #[trigger] rec.parents@[j],
                            ) implies visited@.contains(rec.parents@[j]) by {
                            if j < idx {
                                lemma_push_contains(visited_b, p, rec.parents@[j]);
                            } else {
                                assert(rec.parents@[j] == p);
                                lemma_push_contains(visited_b, p, p);
                            }
                        }
                    }
                }
            }
            idx += 1;
        }
        proof {
            assert forall|p: ChangesetId|
                #[trigger] m[c].parents@.contains(p) && m.dom().contains(p) implies visited@
                .contains(p) by {
                let j = choose|j: int| 0 <= j < m[c].parents@.len() && m[c].parents@[j] == p;
                assert(rec.parents@[j] == p);
            }
        }
    }
    let mut entries: Vec<(ChangesetId, AuxId)> = Vec::new();
    let vn = visited.len();
    let mut k: usize = 0;
    proof {
        assert(forall|x: ChangesetId| !queue@.contains(x));
    }
    while k < vn
        invariant
            new_changesets@ == m,
            vn == visited@.len(),
            k <= vn,
            visited@.no_duplicates(),
            forall|i: int|
                0 <= i < visited@.len() ==> m.dom().contains(#[trigger] visited@[i]) && reachable(
                    m,
                    target,
                    visited@[i],
                ),
            forall|i: int, p: ChangesetId|
                0 <= i < visited@.len() && #[trigger] m[visited@[i]].parents@.contains(p)
                    && m.dom().contains(p) ==> visited@.contains(p),
            m.dom().contains(target) ==> visited@.contains(target),
            forall|i: int|
                0 <= i < entries@.len() ==> {
                    &&& m.dom().contains(#[trigger] entries@[i].0)
                    &&& reachable(m, target, entries@[i].0)
                    &&& m[entries@[i].0].aux_id == Some(entries@[i].1)
                    &&& exists|j: int| 0 <= j < k && visited@[j] == entries@[i].0
                },
            forall|j: int|
                0 <= j < k && m[#[trigger] visited@[j]].aux_id is Some ==> exists|i: int|
                    0 <= i < entries@.len() && entries@[i].0 == visited@[j],
            uniq_keys(entries@),
        decreases vn - k,
    {
        let c = visited[k];
        let ghost entries_b = entries@;
        let rec_opt = new_changesets.get(c);
        match rec_opt {
            Some(rec) => {
                match rec.aux_id {
                    Some(a) => {
                        proof {
                            assert forall|i: int|
                                0 <= i < entries@.len() implies entries@[i].0 != c by {
                                let j = choose|j: int| 0 <= j < k && visited@[j] == entries@[i].0;
                            }
                            assert(uniq_keys(entries@.push((c, a))));
                        }
                        entries.push((c, a));
                        proof {
                            assert(entries@[entries@.len() - 1] == (c, a));
                            assert forall|j: int|
                                0 <= j < k + 1 && m[#[trigger] visited@[j]].aux_id
                                    is Some implies exists|i: int|
                                0 <= i < entries@.len() && entries@[i].0 == visited@[j] by {
                                if j < k {
                                    let i = choose|i: int|
                                        0 <= i < entries_b.len() && entries_b[i].0 == visited@[j];
                                    assert(entries@[i].0 == visited@[j]);
                                } else {
                                    assert(entries@[entries@.len() - 1].0 == visited@[j]);
                                }
                            }
                            assert forall|i: int| 0 <= i < entries@.len() implies exists|j: int|
                                0 <= j < k + 1 && visited@[j] == #[trigger] entries@[i].0 by {
                                if i < entries_b.len() {
                                    let j = choose|j: int|
                                        0 <= j < k && visited@[j] == entries_b[i].0;
                                    assert(visited@[j] == entries@[i].0);
                                } else {
                                    assert(visited@[k as int] == entries@[i].0);
                                }
                            }
                        }
                    },
                    None => {
                        proof {
                            assert forall|j: int|
                                0 <= j < k + 1 && m[#[trigger] visited@[j]].aux_id
                                    is Some implies exists|i: int|
                                0 <= i < entries@.len() && entries@[i].0 == visited@[j] by {
                                if j < k {
                                    let i = choose|i: int|
                                        0 <= i < entries_b.len() && entries_b[i].0 == visited@[j];
                                    assert(entries@[i].0 == visited@[j]);
                                }
                            }
                            assert forall|i: int| 0 <= i < entries@.len() implies exists|j: int|
                                0 <= j < k + 1 && visited@[j] == #[trigger] entries@[i].0 by {
                                let j = choose|j: int| 0 <= j < k && visited@[j] == entries@[i].0;
                            }
                        }
                    },
                }
            },
            None => {
                proof {
                    assert(false);
                }
            },
        }
        k += 1;
    }
    let ghost e = entries@;
    proof {
        assert forall|c: ChangesetId| #[trigger] spec_hook_map(m, target).dom().contains(
            c,
        ) implies keyed_map(e).dom().contains(c) by {
            let n = choose|n: nat| reaches(m, target, c, n);
            lemma_closed_seq_contains(m, visited@, target, c, n);
            let j = choose|j: int| 0 <= j < visited@.len() && visited@[j] == c;
            assert(m[visited@[j]].aux_id is Some);
            let i = choose|i: int| 0 <= i < e.len() && e[i].0 == visited@[j];
            lemma_keyed_map_dom(e, c);
        }
        assert forall|c: ChangesetId| #[trigger] keyed_map(e).dom().contains(c) implies (
        spec_hook_map(m, target).dom().contains(c) && keyed_map(e)[c] == spec_hook_map(
            m,
            target,
        ).index(c)) by {
            lemma_keyed_map_dom(e, c);
            let i = choose|i: int| 0 <= i < e.len() && e[i].0@ == c;
            assert(e[i].0 == c);
            assert(derives_entry(m, target, c));
            assert(forall|j: int| i < j < e.len() ==> e[j].0@ != e[i].0@);
            lemma_keyed_map_value(e, i);
        }
        assert(keyed_map(e) =~= spec_hook_map(m, target));
    }
    if entries.len() == 0 {
        proof {
            assert(spec_hook_map(m, target) =~= Map::<ChangesetId, AuxId>::empty()) by {
                assert(keyed_map(e) =~= Map::<ChangesetId, AuxId>::empty());
            }
        }
        return None;
    }
    proof {
        lemma_keyed_map_dom(e, e[0].0@);
        assert(keyed_map(e).dom().contains(e[0].0@));
        assert(spec_hook_map(m, target) != Map::<ChangesetId, AuxId>::empty()) by {
            assert(!Map::<ChangesetId, AuxId>::empty().dom().contains(e[0].0@));
        }
    }
    Some(AuxMappingHook { entries })
}

} // verus!
