//! Distributed execution runtime for sandboxed binary modules wired into
//! directed workflows and invoked over a message bus.
//!
//! The crate holds the verified core: the configuration and workflow model,
//! module fetching and manifest construction, the pooled interpreter host,
//! the dispatch state machine, the hot-reload rules, and the host-function
//! bridge logic. Bus, blob-store and interpreter I/O live with the embedder.

use vstd::prelude::*;

pub mod args;
pub mod config;
pub mod context;
pub mod dispatch;
pub mod document;
pub mod errors;
pub mod graph;
pub mod host;
pub mod manifest;
pub mod pool;
pub mod reload;

verus! {

/// Stages in flight are capped at this many concurrent executions; requests
/// beyond the cap queue at the bus subscription.
pub const MAX_IN_FLIGHT: usize = 100;

/// Name of the blob-store bucket that holds module binaries.
pub fn module_bucket_name() -> (s: &'static str)
    ensures
        s@ == "wasm"@,
{
    "wasm"
}

/// Name of the blob-store bucket that holds workflow documents.
pub fn workflow_bucket_name() -> (s: &'static str)
    ensures
        s@ == "workflows"@,
{
    "workflows"
}

/// Bus address used when the configuration does not name one.
pub fn default_nats_url() -> (s: String)
    ensures
        s@ == "localhost:4222"@,
{
    String::from_str("localhost:4222")
}

/// Default for the boolean configuration toggles (execution thread, watcher
/// thread, WASI).
pub fn default_true() -> (b: bool)
    ensures
        b,
{
    true
}

} // verus!
