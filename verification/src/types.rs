//! The plain values the bookmark-movement core works over: identifiers,
//! bookmark names, audit reasons, replay metadata, and changeset records.

use vstd::prelude::*;
use vstd::string::StrSliceExecFns;

verus! {

/// Content-addressed identifier of a point in the history graph.
#[derive(Clone, Copy, PartialEq, Eq, Structural, Hash, Debug)]
pub struct ChangesetId {
    pub id: u64,
}

impl ChangesetId {
    pub fn new(id: u64) -> (r: ChangesetId)
        ensures
            r.id == id,
    {
        ChangesetId { id }
    }
}

impl View for ChangesetId {
    type V = ChangesetId;

    open spec fn view(&self) -> ChangesetId {
        *self
    }
}

/// Identifier in the secondary ("auxiliary") identifier scheme that the
/// deferred hook populates for newly introduced changesets.
#[derive(Clone, Copy, PartialEq, Eq, Structural, Hash, Debug)]
pub struct AuxId {
    pub id: u64,
}

impl AuxId {
    pub fn new(id: u64) -> (r: AuxId)
        ensures
            r.id == id,
    {
        AuxId { id }
    }
}

/// Why a bookmark is being created; recorded with the pointer for audit.
#[derive(Clone, Copy, PartialEq, Eq, Structural, Debug)]
pub enum BookmarkUpdateReason {
    Push,
    Pull,
    Blobimport,
    ApiRequest,
    ManualMove,
    TestMove,
}

/// Opaque metadata describing an out-of-band replication source for a
/// pointer update.  The core never inspects it; it is passed through
/// unmodified to the transaction and recorded with the public pointer.
#[derive(Clone, Copy, PartialEq, Eq, Structural, Debug)]
pub struct BundleReplayData {
    pub token: u64,
}

impl BundleReplayData {
    pub fn new(token: u64) -> (r: BundleReplayData)
        ensures
            r.token == token,
    {
        BundleReplayData { token }
    }
}

/// Human-assigned identifier for a mutable pointer.
#[derive(Debug)]
pub struct BookmarkName {
    name: String,
}

impl View for BookmarkName {
    type V = Seq<char>;

    closed spec fn view(&self) -> Seq<char> {
        self.name@
    }
}

impl BookmarkName {
    pub fn new(name: String) -> (r: BookmarkName)
        ensures
            r@ == name@,
    {
        BookmarkName { name }
    }

    pub fn as_str(&self) -> (r: &str)
        ensures
            r@ == self@,
    {
        self.name.as_str()
    }

    /// The two names are the same sequence of characters.
    pub fn matches(&self, other: &BookmarkName) -> (r: bool)
        ensures
            r == (self@ == other@),
    {
        self.name == other.name
    }
}

impl Clone for BookmarkName {
    fn clone(&self) -> (r: Self)
        ensures
            r@ == self@,
    {
        BookmarkName { name: self.name.clone() }
    }
}

/// A committed unit of history: its parents in the graph and the optional
/// auxiliary identifier carried by the changeset itself.  The record is
/// keyed by its own [`ChangesetId`] wherever it is stored.
#[derive(Debug)]
pub struct ChangesetRecord {
    pub parents: Vec<ChangesetId>,
    pub aux_id: Option<AuxId>,
}

impl ChangesetRecord {
    pub fn new(parents: Vec<ChangesetId>, aux_id: Option<AuxId>) -> (r: ChangesetRecord)
        ensures
            r.parents == parents,
            r.aux_id == aux_id,
    {
        ChangesetRecord { parents, aux_id }
    }
}

/// `prefix` is an initial segment of `s`.
pub open spec fn is_prefix_of(prefix: Seq<char>, s: Seq<char>) -> bool {
    prefix.len() <= s.len() && s.subrange(0, prefix.len() as int) == prefix
}

/// Character-for-character prefix test over string slices.
pub fn str_has_prefix(s: &str, prefix: &str) -> (r: bool)
    ensures
        r == is_prefix_of(prefix@, s@),
{
    let n: usize = prefix.unicode_len();
    let m: usize = s.unicode_len();
    if n > m {
        return false;
    }
    let mut i: usize = 0;
    while i < n
        invariant
            i <= n,
            n == prefix@.len(),
            m == s@.len(),
            n <= m,
            forall|j: int| 0 <= j < i ==> s@[j] == prefix@[j],
        decreases n - i,
    {
        if s.get_char(i) != prefix.get_char(i) {
            proof {
                assert(s@.subrange(0, n as int)[i as int] != prefix@[i as int]);
            }
            return false;
        }
        i += 1;
    }
    proof {
        assert(s@.subrange(0, n as int) =~= prefix@);
    }
    true
}

} // verus!
