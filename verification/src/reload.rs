//! The hot-reload watcher's rules: which change notifications matter, and
//! how a relevant one is turned into exactly one rebuild-and-swap.
//!
//! The embedder watches the module bucket's change stream and hands each
//! notification to [`process_reload`], re-fetching the graph's modules
//! first when [`reload_relevant`] says the event matters. Reload is
//! strictly best-effort: any failure leaves the pool exactly as it was,
//! previous manifest retained, and never stops the dispatcher.

use vstd::prelude::*;

use crate::config::PluginConfig;
use crate::errors::{FetchError, ReloadError};
use crate::graph::{GraphView, WorkflowGraph};
use crate::manifest::{FetchedModule, build_manifest, is_built_manifest, integrity_ok};
use crate::pool::{InterpreterPool, swapped};

verus! {

/// A change notification from the blob store: one updated object and its
/// new digest.
pub struct ReloadEvent {
    /// Name of the updated object.
    pub object_name: String,
    /// The digest the store computed for the new contents.
    pub digest: String,
}

/// Mathematical view of a [`ReloadEvent`].
pub struct ReloadEventView {
    pub object_name: Seq<char>,
    pub digest: Seq<char>,
}

impl View for ReloadEvent {
    type V = ReloadEventView;

    open spec fn view(&self) -> ReloadEventView {
        ReloadEventView { object_name: self.object_name@, digest: self.digest@ }
    }
}

/// Whether a change event concerns the active graph: some stage references
/// the updated object, by exact object-name match.
pub open spec fn relevant(g: GraphView, e: ReloadEventView) -> bool {
    exists|i: int|
        0 <= i < g.stages.len() && (#[trigger] g.stages[i]).object_name == e.object_name
}

/// Decides whether a change event concerns the active graph.
pub fn reload_relevant(graph: &WorkflowGraph, ev: &ReloadEvent) -> (b: bool)
    ensures
        b == relevant(graph@, ev@),
{
    graph.contains_module(ev.object_name.as_str())
}

/// What one watcher step did.
pub enum ReloadOutcome {
    /// The event does not concern the active graph; nothing was rebuilt.
    Ignored,
    /// The manifest was rebuilt and swapped in, exactly once.
    Swapped,
    /// Rebuilding failed; the previous manifest remains active.
    Failed(ReloadError),
}

/// One watcher step. `refetched` carries the freshly fetched binaries of
/// all the graph's modules, in stage order, or `None` when re-fetching
/// failed; `instantiation_ok` reports whether the embedder could
/// instantiate an interpreter from the rebuilt manifest. An irrelevant
/// event is ignored without a rebuild; a relevant one triggers exactly one
/// rebuild-and-swap; any failure leaves the pool unchanged.
pub fn process_reload(
    pool: &mut InterpreterPool,
    graph: &WorkflowGraph,
    plugin: &PluginConfig,
    ev: &ReloadEvent,
    refetched: Option<Vec<FetchedModule>>,
    instantiation_ok: bool,
) -> (r: ReloadOutcome)
    requires
        old(pool)@.wf(),
        old(pool)@.version < u64::MAX,
    ensures
        final(pool)@.wf(),
        !relevant(graph@, ev@) ==> r is Ignored && final(pool)@ == old(pool)@,
        r is Failed ==> final(pool)@ == old(pool)@,
        r is Failed ==> {
            ||| refetched is None
            ||| (refetched matches Some(f) && f@.len() != graph@.stages.len())
            ||| (refetched matches Some(f) && exists|i: int|
                0 <= i < graph@.stages.len() && !integrity_ok(
                    #[trigger] graph@.stages[i],
                    f@[i]@,
                ))
            ||| !instantiation_ok
        },
        r is Swapped ==> relevant(graph@, ev@) && (refetched matches Some(f) && {
            &&& f@.len() == graph@.stages.len()
            &&& instantiation_ok
            &&& swapped(old(pool)@, final(pool)@, final(pool)@.manifest)
            &&& is_built_manifest(
                final(pool)@.manifest,
                graph@,
                Seq::new(f@.len(), |i: int| f@[i]@),
                plugin@,
            )
            &&& forall|i: int|
                0 <= i < graph@.stages.len() ==> integrity_ok(
                    #[trigger] graph@.stages[i],
                    f@[i]@,
                )
        }),
        relevant(graph@, ev@) ==> !(r is Ignored),
{
    if !reload_relevant(graph, ev) {
        return ReloadOutcome::Ignored;
    }
    let fetched = match refetched {
        None => {
            return ReloadOutcome::Failed(
                ReloadError::Refetch(FetchError::ObjectUnavailable(ev.object_name.clone())),
            );
        },
        Some(f) => f,
    };
    if fetched.len() != graph.stage_count() {
        return ReloadOutcome::Failed(ReloadError::Refetch(FetchError::WrongModuleCount));
    }
    let new_manifest = match build_manifest(graph, fetched, plugin) {
        Ok(m) => m,
        Err(e) => {
            return ReloadOutcome::Failed(ReloadError::Integrity(e));
        },
    };
    match pool.swap(new_manifest, instantiation_ok) {
        Ok(()) => ReloadOutcome::Swapped,
        Err(e) => ReloadOutcome::Failed(ReloadError::Rebuild(e)),
    }
}

} // verus!
