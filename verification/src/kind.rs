//! Classification of a bookmark name as scratch or public, and enforcement
//! of a caller-declared restriction on the outcome.

use vstd::prelude::*;

use crate::errors::BookmarkMovementError;
use crate::types::{is_prefix_of, str_has_prefix, BookmarkName};

verus! {

/// What a bookmark name denotes: an ephemeral, high-churn pointer or a
/// durable, shared one.
#[derive(Clone, Copy, PartialEq, Eq, Structural, Debug)]
pub enum BookmarkKind {
    Scratch,
    Public,
}

/// The caller's declared expectation about the classification; consulted
/// once per operation and never silently overridden.
#[derive(Clone, Copy, PartialEq, Eq, Structural, Debug)]
pub enum BookmarkKindRestrictions {
    AnyKind,
    OnlyScratch,
    OnlyPublic,
}

/// Which bookmark names are eligible to be scratch: those under the
/// configured namespace prefix.  With no namespace configured, every name
/// is public.
#[derive(Debug)]
pub struct InfinitepushParams {
    pub namespace: Option<String>,
}

/// The kind a configuration assigns to a name: scratch exactly when a
/// namespace is configured and the name falls under it.
pub open spec fn classified_kind(params: InfinitepushParams, name: Seq<char>) -> BookmarkKind {
    match params.namespace {
        Some(ns) => if is_prefix_of(ns@, name) {
            BookmarkKind::Scratch
        } else {
            BookmarkKind::Public
        },
        None => BookmarkKind::Public,
    }
}

impl InfinitepushParams {
    pub fn new(namespace: Option<String>) -> (r: InfinitepushParams)
        ensures
            r.namespace == namespace,
    {
        InfinitepushParams { namespace }
    }

    /// Compute the kind of `name` under this configuration.
    pub fn classify(&self, name: &BookmarkName) -> (r: BookmarkKind)
        ensures
            r == classified_kind(*self, name@),
    {
        match &self.namespace {
            Some(ns) => {
                if str_has_prefix(name.as_str(), ns.as_str()) {
                    BookmarkKind::Scratch
                } else {
                    BookmarkKind::Public
                }
            },
            None => BookmarkKind::Public,
        }
    }
}

impl BookmarkKindRestrictions {
    /// The declared restriction accepts `kind`.
    pub open spec fn allows(self, kind: BookmarkKind) -> bool {
        match self {
            BookmarkKindRestrictions::AnyKind => true,
            BookmarkKindRestrictions::OnlyScratch => kind == BookmarkKind::Scratch,
            BookmarkKindRestrictions::OnlyPublic => kind == BookmarkKind::Public,
        }
    }

    /// The kind the restriction demands; meaningful only when it demands
    /// one.
    pub open spec fn demanded_kind(self) -> BookmarkKind {
        match self {
            BookmarkKindRestrictions::OnlyScratch => BookmarkKind::Scratch,
            _ => BookmarkKind::Public,
        }
    }

    /// Resolve the kind of `name` and hold it against this restriction.
    /// Succeeds with the computed kind exactly when the restriction allows
    /// it; otherwise fails with a mismatch naming both kinds.
    pub fn check_kind(&self, params: &InfinitepushParams, name: &BookmarkName) -> (r: Result<
        BookmarkKind,
        BookmarkMovementError,
    >)
        ensures
            ({
                let actual = classified_kind(*params, name@);
                if self.allows(actual) {
                    r == Ok::<BookmarkKind, BookmarkMovementError>(actual)
                } else {
                    r matches Err(BookmarkMovementError::KindMismatch { expected, actual: a })
                        && expected == self.demanded_kind() && a == actual
                }
            }),
    {
        let actual = params.classify(name);
        match self {
            BookmarkKindRestrictions::AnyKind => Ok(actual),
            BookmarkKindRestrictions::OnlyScratch => {
                if actual == BookmarkKind::Scratch {
                    Ok(actual)
                } else {
                    Err(
                        BookmarkMovementError::KindMismatch {
                            expected: BookmarkKind::Scratch,
                            actual,
                        },
                    )
                }
            },
            BookmarkKindRestrictions::OnlyPublic => {
                if actual == BookmarkKind::Public {
                    Ok(actual)
                } else {
                    Err(
                        BookmarkMovementError::KindMismatch {
                            expected: BookmarkKind::Public,
                            actual,
                        },
                    )
                }
            },
        }
    }
}

} // verus!
