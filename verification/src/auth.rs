//! The authorization evaluator: whether the acting principal may modify a
//! given bookmark name, under a policy table mapping name prefixes to the
//! principals allowed to touch them.
//!
//! Authorization runs before any other step of an operation: a caller must
//! never observe classification or storage behaviour for a bookmark it
//! cannot touch.

use vstd::prelude::*;

use crate::errors::BookmarkMovementError;
use crate::types::{is_prefix_of, str_has_prefix, BookmarkName};

verus! {

/// The ambient request context: the principal acting in this operation.
#[derive(Clone, Copy, PartialEq, Eq, Structural, Debug)]
pub struct CoreContext {
    pub principal: u64,
}

impl CoreContext {
    pub fn new(principal: u64) -> (r: CoreContext)
        ensures
            r.principal == principal,
    {
        CoreContext { principal }
    }
}

/// One row of the policy table: bookmark names under `prefix` may be moved
/// only by the listed principals.
#[derive(Debug)]
pub struct AclEntry {
    pub prefix: String,
    pub principals: Vec<u64>,
}

impl AclEntry {
    pub fn new(prefix: String, principals: Vec<u64>) -> (r: AclEntry)
        ensures
            r.prefix@ == prefix@,
            r.principals == principals,
    {
        AclEntry { prefix, principals }
    }
}

/// The policy table.  A name is allowed for a principal when every entry
/// whose prefix covers the name lists that principal; a name no entry
/// covers is unrestricted.
#[derive(Debug)]
pub struct BookmarkAttrs {
    entries: Vec<AclEntry>,
}

impl View for BookmarkAttrs {
    type V = Seq<AclEntry>;

    closed spec fn view(&self) -> Seq<AclEntry> {
        self.entries@
    }
}

/// Every entry covering `name` lists `principal`.
pub open spec fn spec_is_allowed(entries: Seq<AclEntry>, principal: u64, name: Seq<char>) -> bool {
    forall|i: int|
        0 <= i < entries.len() && is_prefix_of(#[trigger] entries[i].prefix@, name)
            ==> entries[i].principals@.contains(principal)
}

impl BookmarkAttrs {
    pub fn new(entries: Vec<AclEntry>) -> (r: BookmarkAttrs)
        ensures
            r@ == entries@,
    {
        BookmarkAttrs { entries }
    }

    /// The policy table's verdict for `principal` on `name`.
    pub fn is_allowed(&self, principal: u64, name: &BookmarkName) -> (r: bool)
        ensures
            r == spec_is_allowed(self@, principal, name@),
    {
        let mut i: usize = 0;
        while i < self.entries.len()
            invariant
                i <= self.entries@.len(),
                forall|j: int|
                    0 <= j < i && is_prefix_of(#[trigger] self.entries@[j].prefix@, name@)
                        ==> self.entries@[j].principals@.contains(principal),
            decreases self.entries@.len() - i,
        {
            let entry = &self.entries[i];
            if str_has_prefix(name.as_str(), entry.prefix.as_str()) {
                if !contains_principal(&entry.principals, principal) {
                    return false;
                }
            }
            i += 1;
        }
        true
    }
}

/// Membership test for a principal list.
fn contains_principal(principals: &Vec<u64>, principal: u64) -> (r: bool)
    ensures
        r == principals@.contains(principal),
{
    let mut i: usize = 0;
    while i < principals.len()
        invariant
            i <= principals@.len(),
            forall|j: int| 0 <= j < i ==> principals@[j] != principal,
        decreases principals@.len() - i,
    {
        if principals[i] == principal {
            return true;
        }
        i += 1;
    }
    false
}

/// Which principal a movement is authorized under: the ambient request
/// context, or an authorization the caller has already established.
#[derive(Clone, Copy, PartialEq, Eq, Structural, Debug)]
pub enum BookmarkMoveAuthorization {
    /// Derive the principal from the ambient request context and consult
    /// the policy table.
    Context,
    /// The caller has already established authorization out of band.
    AlreadyAuthorized,
}

impl BookmarkMoveAuthorization {
    /// This mode approves `ctx` acting on `name` under `entries`.
    pub open spec fn spec_authorized(
        self,
        ctx: CoreContext,
        entries: Seq<AclEntry>,
        name: Seq<char>,
    ) -> bool {
        match self {
            BookmarkMoveAuthorization::Context => spec_is_allowed(entries, ctx.principal, name),
            BookmarkMoveAuthorization::AlreadyAuthorized => true,
        }
    }

    /// Approve or reject the action, evaluated exactly once and before any
    /// mutation.  Rejection names the bookmark.
    pub fn check_authorized(
        &self,
        ctx: &CoreContext,
        bookmark_attrs: &BookmarkAttrs,
        bookmark: &BookmarkName,
    ) -> (r: Result<(), BookmarkMovementError>)
        ensures
            self.spec_authorized(*ctx, bookmark_attrs@, bookmark@) ==> r == Ok::<
                (),
                BookmarkMovementError,
            >(()),
            !self.spec_authorized(*ctx, bookmark_attrs@, bookmark@) ==> (r matches Err(
                BookmarkMovementError::PermissionDenied { bookmark: b },
            ) && b@ == bookmark@),
    {
        match self {
            BookmarkMoveAuthorization::Context => {
                if bookmark_attrs.is_allowed(ctx.principal, bookmark) {
                    Ok(())
                } else {
                    Err(BookmarkMovementError::PermissionDenied { bookmark: bookmark.clone() })
                }
            },
            BookmarkMoveAuthorization::AlreadyAuthorized => Ok(()),
        }
    }
}

} // verus!
