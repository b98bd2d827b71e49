//! The runtime context: one explicit object, built at startup, that owns
//! the configuration, the active workflow, the interpreter pool and the
//! module digest map. The embedder passes it by reference into the
//! dispatcher and the watcher instead of reaching into process-wide state.

use vstd::prelude::*;

use crate::config::{EngineConfig, WorkflowConfig};
use crate::errors::{BuildError, FetchError, IntegrityError};
use crate::manifest::{FetchedModule, build_manifest, is_built_manifest};
use crate::pool::InterpreterPool;

verus! {

/// A failure that prevents the engine from serving; startup is aborted.
#[derive(Debug)]
pub enum StartError {
    /// The blob store did not yield the required modules.
    Fetch(FetchError),
    /// A fetched module's digest does not match its stage's declaration.
    Integrity(IntegrityError),
    /// No interpreter could be instantiated from the manifest.
    Build(BuildError),
}

/// The engine's root state, constructed once at process start.
pub struct EngineContext {
    /// The engine configuration as loaded.
    pub config: EngineConfig,
    /// The active workflow, as fetched from the workflow bucket.
    pub workflow: WorkflowConfig,
    /// The interpreter pool serving this workflow.
    pub pool: InterpreterPool,
    /// Each module's object name paired with its fetched digest, in stage
    /// order.
    pub wasm_map: Vec<(String, String)>,
}

/// Builds the runtime context: assembles the manifest from the fetched
/// modules (enforcing declared digests), and builds the interpreter pool,
/// keyed by the workflow name. `instantiation_ok` reports whether the
/// embedder could instantiate an interpreter from the built manifest; a
/// failure at any step is fatal.
pub fn initialize_engine(
    config: EngineConfig,
    workflow: WorkflowConfig,
    fetched: Vec<FetchedModule>,
    capacity: usize,
    instantiation_ok: bool,
) -> (r: Result<EngineContext, StartError>)
    requires
        capacity >= 1,
    ensures
        match r {
            Ok(ctx) => {
                &&& ctx.config == config
                &&& ctx.workflow == workflow
                &&& fetched@.len() == workflow.graph@.stages.len()
                &&& ctx.pool@.key == workflow.name@
                &&& ctx.pool@.version == 0
                &&& ctx.pool@.busy_count() == 0
                &&& ctx.pool@.capacity() == capacity
                &&& ctx.pool@.wf()
                &&& is_built_manifest(
                    ctx.pool@.manifest,
                    workflow.graph@,
                    Seq::new(fetched@.len(), |i: int| fetched@[i]@),
                    config.plugin@,
                )
                &&& ctx.wasm_map@.len() == workflow.graph@.stages.len()
                &&& forall|i: int|
                    0 <= i < workflow.graph@.stages.len() ==> (#[trigger] ctx.wasm_map@[i]).0@
                        == workflow.graph@.stages[i].object_name && ctx.wasm_map@[i].1@
                        == fetched@[i]@.digest
                &&& instantiation_ok
            },
            Err(e) => match e {
                StartError::Fetch(_) => fetched@.len() != workflow.graph@.stages.len(),
                StartError::Integrity(_) => exists|i: int|
                    0 <= i < workflow.graph@.stages.len() && !crate::manifest::integrity_ok(
                        #[trigger] workflow.graph@.stages[i],
                        fetched@[i]@,
                    ),
                StartError::Build(_) => !instantiation_ok,
            },
        },
{
    let n = workflow.graph.stage_count();
    if fetched.len() != n {
        return Err(StartError::Fetch(FetchError::WrongModuleCount));
    }
    let mut wasm_map: Vec<(String, String)> = Vec::new();
    let mut i: usize = 0;
    while i < n
        invariant
            n == workflow.graph@.stages.len(),
            fetched@.len() == n,
            i <= n,
            wasm_map@.len() == i,
            forall|k: int|
                0 <= k < i ==> (#[trigger] wasm_map@[k]).0@
                    == workflow.graph@.stages[k].object_name && wasm_map@[k].1@
                    == fetched@[k]@.digest,
        decreases n - i,
    {
        let name = workflow.graph.stage(i).object_name.clone();
        let digest = fetched[i].digest.clone();
        wasm_map.push((name, digest));
        i = i + 1;
    }
    let ghost fviews = Seq::new(fetched@.len(), |k: int| fetched@[k]@);
    let manifest = match build_manifest(&workflow.graph, fetched, &config.plugin) {
        Ok(m) => m,
        Err(e) => {
            return Err(StartError::Integrity(e));
        },
    };
    if !instantiation_ok {
        return Err(
            StartError::Build(
                BuildError::Instantiation(
                    String::from_str("could not instantiate the startup manifest"),
                ),
            ),
        );
    }
    proof {
        assert(is_built_manifest(manifest@, workflow.graph@, fviews, config.plugin@));
    }
    let key = workflow.name.clone();
    let pool = InterpreterPool::new(key, manifest, capacity);
    Ok(EngineContext { config, workflow, pool, wasm_map })
}

/// The module digest map: each stage's object name paired with the digest
/// its binary was fetched under.
pub fn get_wasm_map(ctx: &EngineContext) -> (r: &Vec<(String, String)>)
    ensures
        r@ == ctx.wasm_map@,
{
    &ctx.wasm_map
}

} // verus!
