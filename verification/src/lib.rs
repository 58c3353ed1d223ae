//! Serves per-client proxy configuration bundles: a subscription document is
//! fetched, merged with the operator's local configuration, and handed out
//! with the quota figures that came with it.
//!
//! This crate is the verified core: the merge engine (`merge`), the quota
//! override and the live state (`parser`), the steps of a cached fetch
//! (`cache`), the replies (`web`), and the decisions of the file watcher and
//! of the shutdown (`file_watcher`, `lifecycle`). Input and output are left
//! to the program around it.

use vstd::prelude::*;

pub mod cache;
pub mod document;
pub mod file_watcher;
pub mod lifecycle;
pub mod merge;
pub mod parser;
pub mod text;
pub mod web;

pub use document::get_name;

verus! {

/// The name of the selector that a merge builds over the local proxies and
/// the matched groups of the subscription.
pub const DEFAULT_PROXY_OR_DIRECT_NAME: &'static str = "Proxy or Direct";

/// The name of the selector that a merge builds over the local proxies alone.
pub const DEFAULT_FORCE_PROXY_OR_DIRECT_NAME: &'static str = "Force proxy or Direct";

/// A manual selector of the subscription with more members than this is given
/// the force selector as its second member.
pub const SELECT_THRESHOLD: usize = 4;

/// The name of the pass-through target that every selector can fall back to.
pub const DIRECT_NAME: &'static str = "DIRECT";

/// The sentinel that stands, in a locally declared group or record, for the
/// chain target that a merge resolves.
pub const PLACEHOLDER: &'static str = "<PlaceHold>";

/// The key under which a proxy record names the proxy to dial through.
pub const DIALER_PROXY_KEY: &'static str = "dialer-proxy";

/// The key under which a proxy record holds its password.
pub const PASSWORD_KEY: &'static str = "password";

} // verus!
