//! The mapping of changeset id to changeset record that a create operation
//! carries for changesets introduced in the same logical operation.
//!
//! The mapping is read as a `Map<ChangesetId, ChangesetRecord>`; supplying
//! the same key twice keeps the latest value, so merging is idempotent and
//! never an error.

use vstd::prelude::*;

use crate::assoc::{keyed_map, lemma_keyed_map_concat, lemma_keyed_map_dom, lemma_keyed_map_push,
    lemma_keyed_map_value};
use crate::types::{ChangesetId, ChangesetRecord};

verus! {

/// Changesets introduced in the current operation, keyed by their own id.
#[derive(Debug)]
pub struct ChangesetMap {
    entries: Vec<(ChangesetId, ChangesetRecord)>,
}

impl View for ChangesetMap {
    type V = Map<ChangesetId, ChangesetRecord>;

    closed spec fn view(&self) -> Map<ChangesetId, ChangesetRecord> {
        keyed_map(self.entries@)
    }
}

impl ChangesetMap {
    /// An empty mapping.
    pub fn new() -> (r: ChangesetMap)
        ensures
            r@ == Map::<ChangesetId, ChangesetRecord>::empty(),
    {
        ChangesetMap { entries: Vec::new() }
    }

    /// Bind `id` to `record`, replacing any earlier binding of `id`.
    pub fn insert(&mut self, id: ChangesetId, record: ChangesetRecord)
        ensures
            final(self)@ == old(self)@.insert(id, record),
    {
        proof {
            lemma_keyed_map_push(self.entries@, (id, record));
        }
        self.entries.push((id, record));
    }

    /// Whether nothing is bound.
    pub fn is_empty(&self) -> (r: bool)
        ensures
            r == (self@ == Map::<ChangesetId, ChangesetRecord>::empty()),
    {
        proof {
            if self.entries@.len() > 0 {
                lemma_keyed_map_dom(self.entries@, self.entries@.last().0);
                assert(self@.dom().contains(self.entries@.last().0));
            } else {
                assert(self@ =~= Map::<ChangesetId, ChangesetRecord>::empty());
            }
        }
        self.entries.len() == 0
    }

    /// Whether `id` is bound.
    pub fn contains(&self, id: ChangesetId) -> (r: bool)
        ensures
            r == self@.dom().contains(id),
    {
        let mut i: usize = 0;
        while i < self.entries.len()
            invariant
                i <= self.entries@.len(),
                forall|j: int| 0 <= j < i ==> self.entries@[j].0 != id,
            decreases self.entries@.len() - i,
        {
            if self.entries[i].0 == id {
                proof {
                    lemma_keyed_map_dom(self.entries@, id);
                    assert(self.entries@[i as int].0@ == id);
                }
                return true;
            }
            i += 1;
        }
        proof {
            lemma_keyed_map_dom(self.entries@, id);
            assert(forall|j: int| 0 <= j < self.entries@.len() ==> self.entries@[j].0@ != id);
        }
        false
    }

    /// The record bound to `id`, if any.
    pub fn get(&self, id: ChangesetId) -> (r: Option<&ChangesetRecord>)
        ensures
            match r {
                Some(record) => self@.dom().contains(id) && *record == self@[id],
                None => !self@.dom().contains(id),
            },
    {
        let n = self.entries.len();
        let mut i: usize = n;
        while i > 0
            invariant
                i <= n,
                n == self.entries@.len(),
                forall|j: int| i <= j < n ==> self.entries@[j].0 != id,
            decreases i,
        {
            i -= 1;
            if self.entries[i].0 == id {
                proof {
                    lemma_keyed_map_dom(self.entries@, id);
                    assert(forall|j: int|
                        i < j < self.entries@.len() ==> self.entries@[j].0@
                            != self.entries@[i as int].0@);
                    lemma_keyed_map_value(self.entries@, i as int);
                }
                return Some(&self.entries[i].1);
            }
        }
        proof {
            lemma_keyed_map_dom(self.entries@, id);
            assert(forall|j: int| 0 <= j < self.entries@.len() ==> self.entries@[j].0@ != id);
        }
        None
    }

    /// The mapping binds finitely many ids.
    pub proof fn lemma_finite_dom(&self)
        ensures
            self@.dom().finite(),
    {
        crate::assoc::lemma_keyed_map_finite(self.entries@);
    }

    /// Merge `other` into `self`; a key bound on both sides keeps the value
    /// from `other`.
    pub fn merge(&mut self, other: ChangesetMap)
        ensures
            final(self)@ == old(self)@.union_prefer_right(other@),
    {
        proof {
            lemma_keyed_map_concat(self.entries@, other.entries@);
        }
        let mut other = other;
        self.entries.append(&mut other.entries);
    }
}

/// Merging is idempotent: attaching a mapping in two steps, with keys
/// overlapping in any way, yields the same effective mapping as attaching
/// the one-step union, the last write winning per key — and it is never
/// an error.
pub proof fn lemma_merge_idempotent(
    base: Map<ChangesetId, ChangesetRecord>,
    first: Map<ChangesetId, ChangesetRecord>,
    second: Map<ChangesetId, ChangesetRecord>,
)
    ensures
        base.union_prefer_right(first).union_prefer_right(second) == base.union_prefer_right(
            first.union_prefer_right(second),
        ),
{
    assert(base.union_prefer_right(first).union_prefer_right(second) =~= base.union_prefer_right(
        first.union_prefer_right(second),
    ));
}

} // verus!
