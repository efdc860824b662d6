//! Atomic creation of bookmarks: named, mutable pointers into a versioned
//! history graph, shared by many concurrent clients.
//!
//! A create operation checks that the acting principal may touch the
//! bookmark, classifies the name as scratch or public, prepares an
//! auxiliary-mapping side effect for public bookmarks, and then stages and
//! commits a compare-and-set transaction against the backing store.  The
//! only cross-operation coordination is the store's optimistic concurrency
//! check at commit time: at most one of several concurrent creates of the
//! same name succeeds, and a loser sees a "lost race" outcome that is
//! distinct from a storage fault.

pub mod assoc;
pub mod auth;
pub mod aux_mapping;
pub mod changeset_map;
pub mod create;
pub mod download;
pub mod errors;
pub mod kind;
pub mod store;
pub mod telemetry;
pub mod transaction;
pub mod types;
