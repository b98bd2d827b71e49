use deadlift::config::{PluginConfig, WorkflowStage};
use deadlift::errors::CallError;
use deadlift::graph::WorkflowGraph;
use deadlift::manifest::{build_manifest, FetchedModule, HostCapability, Manifest};
use deadlift::pool::InterpreterPool;
use deadlift::reload::{process_reload, reload_relevant, ReloadEvent, ReloadOutcome};

fn stage(name: &str, hash: Option<&str>, func: &str) -> WorkflowStage {
    WorkflowStage {
        object_name: name.to_string(),
        namespace: None,
        hash: hash.map(|h| h.to_string()),
        plugin_function_name: func.to_string(),
    }
}

fn plugin_config() -> PluginConfig {
    PluginConfig { wasi: true, allowed_hosts: vec![], extism_config: None }
}

fn fetched(bytes: &[u8], digest: &str) -> FetchedModule {
    FetchedModule { bytes: bytes.to_vec(), digest: digest.to_string() }
}

fn demo_graph() -> WorkflowGraph {
    let stages = vec![stage("upper", Some("d1"), "transform"), stage("bang", None, "transform")];
    WorkflowGraph::new(stages, vec![(0, 1)]).unwrap()
}

fn demo_manifest(marker: &str) -> Manifest {
    let g = demo_graph();
    build_manifest(
        &g,
        vec![fetched(marker.as_bytes(), "d1"), fetched(b"code-b", "d2")],
        &plugin_config(),
    )
    .unwrap()
}

#[test]
fn manifest_build_joins_stages_and_fetched_modules() {
    let m = demo_manifest("code-a");
    assert_eq!(m.modules.len(), 2);
    assert_eq!(m.modules[0].object_name, "upper");
    assert_eq!(m.modules[0].declared_hash.as_deref(), Some("d1"));
    assert_eq!(m.modules[0].digest, "d1");
    assert_eq!(m.modules[0].bytes, b"code-a".to_vec());
    assert_eq!(m.modules[1].object_name, "bang");
    assert!(m.modules[1].declared_hash.is_none());
    assert!(m.wasi);
    assert_eq!(
        m.bindings,
        vec![
            HostCapability::HttpBatch,
            HostCapability::PostgresQuery,
            HostCapability::PostgresExecute,
        ]
    );
}

#[test]
fn manifest_build_rejects_digest_mismatch() {
    let g = demo_graph();
    let err = build_manifest(
        &g,
        vec![fetched(b"code-a", "wrong"), fetched(b"code-b", "d2")],
        &plugin_config(),
    )
    .unwrap_err();
    assert_eq!(err.object_name, "upper");
    assert_eq!(err.expected, "d1");
    assert_eq!(err.actual, "wrong");
}

#[test]
fn pool_grants_at_most_its_capacity() {
    let mut pool = InterpreterPool::new("wf".to_string(), demo_manifest("m"), 2);
    let c1 = pool.try_checkout("wf").unwrap();
    let c2 = pool.try_checkout("wf").unwrap();
    assert_ne!(c1.slot, c2.slot);
    // the third concurrent attempt finds no free slot
    assert!(pool.try_checkout("wf").is_none());
    // once a slot frees, a waiting attempt succeeds
    pool.checkin(c1);
    let c3 = pool.try_checkout("wf").unwrap();
    assert!(pool.try_checkout("wf").is_none());
    pool.checkin(c2);
    pool.checkin(c3);
}

#[test]
fn pool_rejects_a_foreign_key() {
    let mut pool = InterpreterPool::new("wf".to_string(), demo_manifest("m"), 1);
    assert!(pool.try_checkout("other").is_none());
    assert!(pool.try_checkout("wf").is_some());
}

#[test]
fn pure_function_is_idempotent_through_the_pool() {
    // a pure function: output determined by the manifest bytes and payload
    let run = |manifest: &Manifest, payload: &[u8]| -> Vec<u8> {
        let mut out = manifest.modules[0].bytes.clone();
        out.extend_from_slice(payload);
        out
    };
    let mut pool = InterpreterPool::new("wf".to_string(), demo_manifest("m"), 2);
    let c1 = pool.try_checkout("wf").unwrap();
    let out1 = run(pool.instance_manifest(&c1), b"payload");
    pool.checkin(c1);
    let c2 = pool.try_checkout("wf").unwrap();
    let out2 = run(pool.instance_manifest(&c2), b"payload");
    pool.checkin(c2);
    assert_eq!(out1, out2);
}

#[test]
fn swap_leaves_in_flight_slots_untouched() {
    let mut pool = InterpreterPool::new("wf".to_string(), demo_manifest("old-code"), 2);
    let held = pool.try_checkout("wf").unwrap();
    assert_eq!(pool.active_version(), 0);
    pool.swap(demo_manifest("new-code"), true).unwrap();
    assert_eq!(pool.active_version(), 1);
    // the in-flight call still observes the whole old manifest
    assert_eq!(pool.instance_manifest(&held).modules[0].bytes, b"old-code".to_vec());
    // a checkout initiated after the swap observes only the new manifest
    let fresh = pool.try_checkout("wf").unwrap();
    assert_eq!(pool.instance_manifest(&fresh).modules[0].bytes, b"new-code".to_vec());
    pool.checkin(fresh);
    pool.checkin(held);
    // the returned slot is rebuilt from the active manifest
    let after = pool.try_checkout("wf").unwrap();
    assert_eq!(pool.instance_manifest(&after).modules[0].bytes, b"new-code".to_vec());
    pool.checkin(after);
}

#[test]
fn failed_swap_retains_the_previous_manifest() {
    let mut pool = InterpreterPool::new("wf".to_string(), demo_manifest("old-code"), 1);
    assert!(pool.swap(demo_manifest("new-code"), false).is_err());
    assert_eq!(pool.active_version(), 0);
    assert_eq!(pool.active_manifest().modules[0].bytes, b"old-code".to_vec());
}

#[test]
fn irrelevant_update_produces_no_rebuild() {
    let g = demo_graph();
    let mut pool = InterpreterPool::new("wf".to_string(), demo_manifest("old-code"), 1);
    let ev = ReloadEvent { object_name: "unrelated".to_string(), digest: "zzz".to_string() };
    assert!(!reload_relevant(&g, &ev));
    let outcome = process_reload(
        &mut pool,
        &g,
        &plugin_config(),
        &ev,
        Some(vec![fetched(b"x", "d1"), fetched(b"y", "d2")]),
        true,
    );
    assert!(matches!(outcome, ReloadOutcome::Ignored));
    assert_eq!(pool.active_version(), 0);
    assert_eq!(pool.active_manifest().modules[0].bytes, b"old-code".to_vec());
}

#[test]
fn relevant_update_triggers_exactly_one_swap() {
    let g = demo_graph();
    let mut pool = InterpreterPool::new("wf".to_string(), demo_manifest("old-code"), 1);
    let ev = ReloadEvent { object_name: "upper".to_string(), digest: "d1".to_string() };
    assert!(reload_relevant(&g, &ev));
    let outcome = process_reload(
        &mut pool,
        &g,
        &plugin_config(),
        &ev,
        Some(vec![fetched(b"fresh-code", "d1"), fetched(b"code-b", "d2")]),
        true,
    );
    assert!(matches!(outcome, ReloadOutcome::Swapped));
    assert_eq!(pool.active_version(), 1);
    assert_eq!(pool.active_manifest().modules[0].bytes, b"fresh-code".to_vec());
}

#[test]
fn failed_refetch_keeps_the_pool_serving() {
    let g = demo_graph();
    let mut pool = InterpreterPool::new("wf".to_string(), demo_manifest("old-code"), 1);
    let ev = ReloadEvent { object_name: "upper".to_string(), digest: "d9".to_string() };
    let outcome = process_reload(&mut pool, &g, &plugin_config(), &ev, None, true);
    assert!(matches!(outcome, ReloadOutcome::Failed(_)));
    assert_eq!(pool.active_version(), 0);
    assert_eq!(pool.active_manifest().modules[0].bytes, b"old-code".to_vec());
    // the pool still grants checkouts
    let c = pool.try_checkout("wf").unwrap();
    pool.checkin(c);
}

#[test]
fn reload_integrity_failure_keeps_previous_manifest() {
    let g = demo_graph();
    let mut pool = InterpreterPool::new("wf".to_string(), demo_manifest("old-code"), 1);
    let ev = ReloadEvent { object_name: "upper".to_string(), digest: "bad".to_string() };
    let outcome = process_reload(
        &mut pool,
        &g,
        &plugin_config(),
        &ev,
        Some(vec![fetched(b"fresh", "bad"), fetched(b"code-b", "d2")]),
        true,
    );
    assert!(matches!(outcome, ReloadOutcome::Failed(_)));
    assert_eq!(pool.active_version(), 0);
}

#[test]
fn call_errors_render_readable_messages() {
    assert_eq!(
        CallError::FunctionMissing("f".to_string()).message(),
        "failed to resolve plugin function: f"
    );
    assert_eq!(CallError::Trap("boom".to_string()).message(), "plugin call trapped: boom");
    assert_eq!(
        CallError::UnsupportedSchemaType("date".to_string()).message(),
        "unsupported schema type: date"
    );
}
