//! Manifest construction: fetched modules, sandbox settings and
//! host-function bindings assembled into the immutable descriptor that an
//! interpreter is instantiated from.

use vstd::prelude::*;

use crate::config::PluginConfig;
use crate::graph::WorkflowGraph;
use crate::errors::IntegrityError;

verus! {

/// A module's bytes and content digest as the blob store returned them.
pub struct FetchedModule {
    /// The module binary.
    pub bytes: Vec<u8>,
    /// The content digest the store computed at write time.
    pub digest: String,
}

/// Mathematical view of a [`FetchedModule`].
pub struct FetchedModuleView {
    pub bytes: Seq<u8>,
    pub digest: Seq<char>,
}

impl View for FetchedModule {
    type V = FetchedModuleView;

    open spec fn view(&self) -> FetchedModuleView {
        FetchedModuleView { bytes: self.bytes@, digest: self.digest@ }
    }
}

/// One module of a manifest: the stage's reference joined with the fetched
/// binary.
#[derive(Debug)]
pub struct ManifestModule {
    /// Blob-store object name.
    pub object_name: String,
    /// Optional namespace for the module's identifiers.
    pub namespace: Option<String>,
    /// The digest the stage declared, if any.
    pub declared_hash: Option<String>,
    /// The digest the store reported.
    pub digest: String,
    /// The module binary.
    pub bytes: Vec<u8>,
}

/// Mathematical view of a [`ManifestModule`].
pub struct ManifestModuleView {
    pub object_name: Seq<char>,
    pub namespace: Option<Seq<char>>,
    pub declared_hash: Option<Seq<char>>,
    pub digest: Seq<char>,
    pub bytes: Seq<u8>,
}

impl View for ManifestModule {
    type V = ManifestModuleView;

    open spec fn view(&self) -> ManifestModuleView {
        ManifestModuleView {
            object_name: self.object_name@,
            namespace: match self.namespace {
                Some(ns) => Some(ns@),
                None => None,
            },
            declared_hash: match self.declared_hash {
                Some(h) => Some(h@),
                None => None,
            },
            digest: self.digest@,
            bytes: self.bytes@,
        }
    }
}

/// One host capability exposed to sandboxed code. The set is fixed and
/// registered once per manifest build.
#[derive(Clone, Copy, PartialEq, Eq, Structural, Debug)]
pub enum HostCapability {
    /// Outbound batched HTTP requests.
    HttpBatch,
    /// Relational-database read queries.
    PostgresQuery,
    /// Relational-database statement batches.
    PostgresExecute,
}

/// The complete fixed host-capability set, in registration order.
pub open spec fn fixed_bindings() -> Seq<HostCapability> {
    seq![HostCapability::HttpBatch, HostCapability::PostgresQuery, HostCapability::PostgresExecute]
}

/// The immutable instantiation descriptor: fetched modules in stage order,
/// sandbox settings and the registered host-function bindings.
#[derive(Debug)]
pub struct Manifest {
    /// The modules, in stage order.
    pub modules: Vec<ManifestModule>,
    /// Whether the sandbox exposes the WASI system interface.
    pub wasi: bool,
    /// Hosts the sandboxed code may reach; empty means unrestricted.
    pub allowed_hosts: Vec<String>,
    /// Free-form runtime configuration handed to the sandbox verbatim.
    pub runtime_config: Vec<(String, String)>,
    /// The registered host capabilities.
    pub bindings: Vec<HostCapability>,
}

/// Mathematical view of a [`Manifest`].
pub struct ManifestView {
    pub modules: Seq<ManifestModuleView>,
    pub wasi: bool,
    pub allowed_hosts: Seq<Seq<char>>,
    pub runtime_config: Seq<(Seq<char>, Seq<char>)>,
    pub bindings: Seq<HostCapability>,
}

impl View for Manifest {
    type V = ManifestView;

    open spec fn view(&self) -> ManifestView {
        ManifestView {
            modules: Seq::new(self.modules@.len(), |i: int| self.modules@[i]@),
            wasi: self.wasi,
            allowed_hosts: Seq::new(self.allowed_hosts@.len(), |i: int| self.allowed_hosts@[i]@),
            runtime_config: Seq::new(
                self.runtime_config@.len(),
                |i: int| (self.runtime_config@[i].0@, self.runtime_config@[i].1@),
            ),
            bindings: self.bindings@,
        }
    }
}

/// Whether a fetched module satisfies the integrity rule of its stage: a
/// declared digest must match the digest the store reported.
pub open spec fn integrity_ok(stage: crate::config::StageView, f: FetchedModuleView) -> bool {
    match stage.hash {
        Some(h) => h == f.digest,
        None => true,
    }
}

/// The module a stage and its fetched binary assemble into.
pub open spec fn module_of(stage: crate::config::StageView, f: FetchedModuleView)
    -> ManifestModuleView {
    ManifestModuleView {
        object_name: stage.object_name,
        namespace: stage.namespace,
        declared_hash: stage.hash,
        digest: f.digest,
        bytes: f.bytes,
    }
}

/// Whether `m` is exactly the manifest built from the graph's stages, the
/// fetched binaries and the sandbox settings.
pub open spec fn is_built_manifest(
    m: ManifestView,
    g: crate::graph::GraphView,
    fetched: Seq<FetchedModuleView>,
    p: crate::config::PluginConfigView,
) -> bool {
    &&& m.modules.len() == g.stages.len()
    &&& forall|i: int|
        0 <= i < g.stages.len() ==> #[trigger] m.modules[i] == module_of(
            g.stages[i],
            fetched[i],
        )
    &&& m.wasi == p.wasi
    &&& m.allowed_hosts == p.allowed_hosts
    &&& m.runtime_config == (match p.extism_config {
        Some(c) => c,
        None => Seq::<(Seq<char>, Seq<char>)>::empty(),
    })
    &&& m.bindings == fixed_bindings()
}

/// Two manifests built from identical inputs are the same manifest: the
/// build is a function of the graph, the fetched binaries and the sandbox
/// settings alone.
pub proof fn lemma_build_deterministic(
    m1: ManifestView,
    m2: ManifestView,
    g: crate::graph::GraphView,
    fetched: Seq<FetchedModuleView>,
    p: crate::config::PluginConfigView,
)
    requires
        is_built_manifest(m1, g, fetched, p),
        is_built_manifest(m2, g, fetched, p),
    ensures
        m1 == m2,
{
    assert(m1.modules =~= m2.modules);
    assert(m1 =~= m2);
}

/// Copies a vector of strings.
pub(crate) fn clone_strings(v: &Vec<String>) -> (r: Vec<String>)
    ensures
        r@.len() == v@.len(),
        forall|i: int| 0 <= i < v@.len() ==> (#[trigger] r@[i])@ == v@[i]@,
{
    let n = v.len();
    let mut r: Vec<String> = Vec::new();
    let mut i: usize = 0;
    while i < n
        invariant
            n == v@.len(),
            i <= n,
            r@.len() == i,
            forall|k: int| 0 <= k < i ==> (#[trigger] r@[k])@ == v@[k]@,
        decreases n - i,
    {
        r.push(v[i].clone());
        i = i + 1;
    }
    r
}

/// Copies a vector of string pairs.
pub(crate) fn clone_string_pairs(v: &Vec<(String, String)>) -> (r: Vec<(String, String)>)
    ensures
        r@.len() == v@.len(),
        forall|i: int|
            0 <= i < v@.len() ==> (#[trigger] r@[i]).0@ == v@[i].0@ && r@[i].1@ == v@[i].1@,
{
    let n = v.len();
    let mut r: Vec<(String, String)> = Vec::new();
    let mut i: usize = 0;
    while i < n
        invariant
            n == v@.len(),
            i <= n,
            r@.len() == i,
            forall|k: int|
                0 <= k < i ==> (#[trigger] r@[k]).0@ == v@[k].0@ && r@[k].1@ == v@[k].1@,
        decreases n - i,
    {
        let (a, b) = (v[i].0.clone(), v[i].1.clone());
        r.push((a, b));
        i = i + 1;
    }
    r
}

/// Copies a byte vector.
pub(crate) fn clone_bytes(v: &Vec<u8>) -> (r: Vec<u8>)
    ensures
        r@ == v@,
{
    let n = v.len();
    let mut r: Vec<u8> = Vec::new();
    let mut i: usize = 0;
    while i < n
        invariant
            n == v@.len(),
            i <= n,
            r@.len() == i,
            forall|k: int| 0 <= k < i ==> (#[trigger] r@[k]) == v@[k],
        decreases n - i,
    {
        r.push(v[i]);
        i = i + 1;
    }
    proof {
        assert(r@ =~= v@);
    }
    r
}

/// Copies an optional string.
fn clone_opt_string(v: &Option<String>) -> (r: Option<String>)
    ensures
        match v {
            Some(s) => r matches Some(t) && t@ == s@,
            None => r is None,
        },
{
    match v {
        Some(s) => Some(s.clone()),
        None => None,
    }
}

impl ManifestModule {
    /// A structural copy.
    pub fn duplicate(&self) -> (r: ManifestModule)
        ensures
            r@ == self@,
    {
        ManifestModule {
            object_name: self.object_name.clone(),
            namespace: clone_opt_string(&self.namespace),
            declared_hash: clone_opt_string(&self.declared_hash),
            digest: self.digest.clone(),
            bytes: clone_bytes(&self.bytes),
        }
    }
}

impl Manifest {
    /// A structural copy: the slots of the interpreter pool each hold the
    /// manifest their instance was built from.
    pub fn duplicate(&self) -> (r: Manifest)
        ensures
            r@ == self@,
    {
        let n = self.modules.len();
        let mut modules: Vec<ManifestModule> = Vec::new();
        let mut i: usize = 0;
        while i < n
            invariant
                n == self.modules@.len(),
                i <= n,
                modules@.len() == i,
                forall|k: int| 0 <= k < i ==> (#[trigger] modules@[k])@ == self.modules@[k]@,
            decreases n - i,
        {
            modules.push(self.modules[i].duplicate());
            i = i + 1;
        }
        let r = Manifest {
            modules,
            wasi: self.wasi,
            allowed_hosts: clone_strings(&self.allowed_hosts),
            runtime_config: clone_string_pairs(&self.runtime_config),
            bindings: self.bindings.clone(),
        };
        proof {
            assert(r@.modules =~= self@.modules);
            assert(r@.allowed_hosts =~= self@.allowed_hosts);
            assert(r@.runtime_config =~= self@.runtime_config);
            assert(r@ =~= self@);
        }
        r
    }
}

/// Assembles the fetched modules, in stage order, into one manifest,
/// attaching the sandbox settings and the fixed host-function bindings.
/// Every stage that declares a digest must have been fetched with exactly
/// that digest; the first mismatch is reported.
#[verifier::loop_isolation(false)]
pub fn build_manifest(graph: &WorkflowGraph, fetched: Vec<FetchedModule>, plugin: &PluginConfig)
    -> (r: Result<Manifest, IntegrityError>)
    requires
        fetched@.len() == graph@.stages.len(),
    ensures
        match r {
            Ok(m) => {
                &&& is_built_manifest(
                    m@,
                    graph@,
                    Seq::new(fetched@.len(), |i: int| fetched@[i]@),
                    plugin@,
                )
                &&& forall|i: int|
                    0 <= i < graph@.stages.len() ==> integrity_ok(
                        #[trigger] graph@.stages[i],
                        fetched@[i]@,
                    )
            },
            Err(e) => exists|i: int|
                {
                    &&& 0 <= i < graph@.stages.len()
                    &&& !integrity_ok(#[trigger] graph@.stages[i], fetched@[i]@)
                    &&& e.object_name@ == graph@.stages[i].object_name
                    &&& e.actual@ == fetched@[i]@.digest
                },
        },
{
    let n = graph.stage_count();
    let mut modules: Vec<ManifestModule> = Vec::new();
    let mut rest = fetched;
    let ghost all = Seq::new(rest@.len(), |i: int| rest@[i]@);
    let mut i: usize = 0;
    while i < n
        invariant
            i <= n,
            rest@.len() == n - i,
            forall|k: int| 0 <= k < rest@.len() ==> (#[trigger] rest@[k])@ == all[k + i],
            modules@.len() == i,
            forall|k: int|
                0 <= k < i ==> (#[trigger] modules@[k])@ == module_of(graph@.stages[k], all[k]),
            forall|k: int| 0 <= k < i ==> integrity_ok(#[trigger] graph@.stages[k], all[k]),
        decreases n - i,
    {
        let f = rest.remove(0);
        let stage = graph.stage(i);
        match &stage.hash {
            Some(h) => {
                if !h.eq(&f.digest) {
                    return Err(
                        IntegrityError {
                            object_name: stage.object_name.clone(),
                            expected: h.clone(),
                            actual: f.digest,
                        },
                    );
                }
            },
            None => {},
        }
        modules.push(
            ManifestModule {
                object_name: stage.object_name.clone(),
                namespace: clone_opt_string(&stage.namespace),
                declared_hash: clone_opt_string(&stage.hash),
                digest: f.digest,
                bytes: f.bytes,
            },
        );
        i = i + 1;
    }
    let mut bindings: Vec<HostCapability> = Vec::new();
    bindings.push(HostCapability::HttpBatch);
    bindings.push(HostCapability::PostgresQuery);
    bindings.push(HostCapability::PostgresExecute);
    let r = Manifest {
        modules,
        wasi: plugin.wasi,
        allowed_hosts: clone_strings(&plugin.allowed_hosts),
        runtime_config: match &plugin.extism_config {
            Some(c) => clone_string_pairs(c),
            None => Vec::new(),
        },
        bindings,
    };
    proof {
        assert(r@.bindings =~= fixed_bindings());
        assert(r@.allowed_hosts =~= plugin@.allowed_hosts);
        match plugin@.extism_config {
            Some(c) => {
                assert(r@.runtime_config =~= c);
            },
            None => {
                assert(r@.runtime_config =~= Seq::<(Seq<char>, Seq<char>)>::empty());
            },
        }
    }
    Ok(r)
}

} // verus!
