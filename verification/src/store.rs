//! The backing pointer store: the only shared mutable resource.
//!
//! It keeps two namespaces of bookmarks — scratch and public — and the
//! auxiliary identifier mapping that the deferred hook populates.  The
//! store is never mutated outside a [`crate::transaction::BookmarkTransaction`]:
//! the mutating operations are visible only inside this crate.

use vstd::prelude::*;

use crate::assoc::{keyed_map, lemma_keyed_map_dom, lemma_keyed_map_push, lemma_keyed_map_value};
use crate::types::{AuxId, BookmarkName, BookmarkUpdateReason, BundleReplayData, ChangesetId};

verus! {

/// What the public namespace records for a bookmark: the target pointer,
/// the audited reason, and any side-band replay metadata, passed through
/// unmodified.
#[derive(Clone, Copy, PartialEq, Eq, Structural, Debug)]
pub struct PublicEntry {
    pub target: ChangesetId,
    pub reason: BookmarkUpdateReason,
    pub replay: Option<BundleReplayData>,
}

/// Nothing observable about the store changed between the two states.
pub open spec fn store_unchanged(pre: BookmarkStore, post: BookmarkStore) -> bool {
    &&& post.scratch_map() == pre.scratch_map()
    &&& post.public_map() == pre.public_map()
    &&& post.aux_map() == pre.aux_map()
}

/// The shared store of bookmarks and auxiliary identifiers.
#[derive(Debug)]
pub struct BookmarkStore {
    scratch: Vec<(BookmarkName, ChangesetId)>,
    public: Vec<(BookmarkName, PublicEntry)>,
    aux: Vec<(ChangesetId, AuxId)>,
}

impl BookmarkStore {
    /// The scratch namespace, as a map from name to target.
    pub closed spec fn scratch_map(self) -> Map<Seq<char>, ChangesetId> {
        keyed_map(self.scratch@)
    }

    /// The public namespace, as a map from name to its recorded entry.
    pub closed spec fn public_map(self) -> Map<Seq<char>, PublicEntry> {
        keyed_map(self.public@)
    }

    /// The auxiliary identifier mapping.
    pub closed spec fn aux_map(self) -> Map<ChangesetId, AuxId> {
        keyed_map(self.aux@)
    }

    /// An empty store.
    pub fn new() -> (r: BookmarkStore)
        ensures
            r.scratch_map() == Map::<Seq<char>, ChangesetId>::empty(),
            r.public_map() == Map::<Seq<char>, PublicEntry>::empty(),
            r.aux_map() == Map::<ChangesetId, AuxId>::empty(),
    {
        BookmarkStore { scratch: Vec::new(), public: Vec::new(), aux: Vec::new() }
    }

    /// The target the scratch namespace binds `name` to, if any.
    pub fn get_scratch(&self, name: &BookmarkName) -> (r: Option<ChangesetId>)
        ensures
            match r {
                Some(target) => self.scratch_map().dom().contains(name@)
                    && self.scratch_map().index(name@) == target,
                None => !self.scratch_map().dom().contains(name@),
            },
    {
        let n = self.scratch.len();
        let mut i: usize = n;
        while i > 0
            invariant
                i <= n,
                n == self.scratch@.len(),
                forall|j: int| i <= j < n ==> self.scratch@[j].0@ != name@,
            decreases i,
        {
            i -= 1;
            if self.scratch[i].0.matches(name) {
                proof {
                    lemma_keyed_map_value(self.scratch@, i as int);
                }
                return Some(self.scratch[i].1);
            }
        }
        proof {
            lemma_keyed_map_dom(self.scratch@, name@);
        }
        None
    }

    /// The entry the public namespace records for `name`, if any.
    pub fn get_public(&self, name: &BookmarkName) -> (r: Option<PublicEntry>)
        ensures
            match r {
                Some(entry) => self.public_map().dom().contains(name@) && self.public_map()[name@]
                    == entry,
                None => !self.public_map().dom().contains(name@),
            },
    {
        let n = self.public.len();
        let mut i: usize = n;
        while i > 0
            invariant
                i <= n,
                n == self.public@.len(),
                forall|j: int| i <= j < n ==> self.public@[j].0@ != name@,
            decreases i,
        {
            i -= 1;
            if self.public[i].0.matches(name) {
                proof {
                    lemma_keyed_map_value(self.public@, i as int);
                }
                return Some(self.public[i].1);
            }
        }
        proof {
            lemma_keyed_map_dom(self.public@, name@);
        }
        None
    }

    /// The auxiliary identifier bound to `id`, if any.
    pub fn get_aux(&self, id: ChangesetId) -> (r: Option<AuxId>)
        ensures
            match r {
                Some(aux) => self.aux_map().dom().contains(id) && self.aux_map()[id] == aux,
                None => !self.aux_map().dom().contains(id),
            },
    {
        let n = self.aux.len();
        let mut i: usize = n;
        while i > 0
            invariant
                i <= n,
                n == self.aux@.len(),
                forall|j: int| i <= j < n ==> self.aux@[j].0@ != id,
            decreases i,
        {
            i -= 1;
            if self.aux[i].0 == id {
                proof {
                    assert(self.aux@[i as int].0@ == id);
                    lemma_keyed_map_value(self.aux@, i as int);
                }
                return Some(self.aux[i].1);
            }
        }
        proof {
            lemma_keyed_map_dom(self.aux@, id);
        }
        None
    }

    /// Bind `name` to `target` in the scratch namespace.
    pub(crate) fn insert_scratch(&mut self, name: BookmarkName, target: ChangesetId)
        ensures
            final(self).scratch_map() == old(self).scratch_map().insert(name@, target),
            final(self).public_map() == old(self).public_map(),
            final(self).aux_map() == old(self).aux_map(),
    {
        proof {
            lemma_keyed_map_push(self.scratch@, (name, target));
        }
        self.scratch.push((name, target));
    }

    /// Record `entry` for `name` in the public namespace.
    pub(crate) fn insert_public(&mut self, name: BookmarkName, entry: PublicEntry)
        ensures
            final(self).public_map() == old(self).public_map().insert(name@, entry),
            final(self).scratch_map() == old(self).scratch_map(),
            final(self).aux_map() == old(self).aux_map(),
    {
        proof {
            lemma_keyed_map_push(self.public@, (name, entry));
        }
        self.public.push((name, entry));
    }

    /// Bind `id` to `aux` in the auxiliary mapping.
    pub(crate) fn insert_aux(&mut self, id: ChangesetId, aux: AuxId)
        ensures
            final(self).aux_map() == old(self).aux_map().insert(id, aux),
            final(self).scratch_map() == old(self).scratch_map(),
            final(self).public_map() == old(self).public_map(),
    {
        proof {
            lemma_keyed_map_push(self.aux@, (id, aux));
        }
        self.aux.push((id, aux));
    }
}

} // verus!
