use deadlift::config::{
    parse_workflow_document, require_config, PluginConfig, WorkflowConfig, WorkflowStage,
};
use deadlift::context::{get_wasm_map, initialize_engine, StartError};
use deadlift::graph::WorkflowGraph;
use deadlift::manifest::FetchedModule;

fn demo_workflow() -> WorkflowConfig {
    let stages = vec![
        WorkflowStage {
            object_name: "upper".to_string(),
            namespace: Some("main".to_string()),
            hash: Some("d0".to_string()),
            plugin_function_name: "transform".to_string(),
        },
        WorkflowStage {
            object_name: "bang".to_string(),
            namespace: None,
            hash: None,
            plugin_function_name: "transform".to_string(),
        },
    ];
    WorkflowConfig {
        name: "wf".to_string(),
        graph: WorkflowGraph::new(stages, vec![(0, 1)]).unwrap(),
    }
}

fn demo_config() -> deadlift::config::EngineConfig {
    require_config("nats: {}\nplugin: {}\n".as_bytes().to_vec()).unwrap()
}

fn demo_fetched() -> Vec<FetchedModule> {
    vec![
        FetchedModule { bytes: b"code-0".to_vec(), digest: "d0".to_string() },
        FetchedModule { bytes: b"code-1".to_vec(), digest: "d1".to_string() },
    ]
}

#[test]
fn startup_builds_pool_and_digest_map() {
    let ctx = initialize_engine(demo_config(), demo_workflow(), demo_fetched(), 4, true).unwrap();
    assert_eq!(ctx.pool.slot_key(), "wf");
    assert_eq!(ctx.pool.active_version(), 0);
    assert_eq!(ctx.pool.capacity(), 4);
    assert_eq!(ctx.pool.active_manifest().modules.len(), 2);
    assert_eq!(ctx.pool.active_manifest().modules[0].bytes, b"code-0".to_vec());
    let map = get_wasm_map(&ctx);
    assert_eq!(
        map,
        &vec![
            ("upper".to_string(), "d0".to_string()),
            ("bang".to_string(), "d1".to_string()),
        ]
    );
}

#[test]
fn startup_fails_on_missing_modules() {
    let r = initialize_engine(demo_config(), demo_workflow(), vec![], 4, true);
    assert!(matches!(r, Err(StartError::Fetch(_))));
}

#[test]
fn startup_fails_on_digest_mismatch() {
    let mut fetched = demo_fetched();
    fetched[0].digest = "other".to_string();
    let r = initialize_engine(demo_config(), demo_workflow(), fetched, 4, true);
    assert!(matches!(r, Err(StartError::Integrity(_))));
}

#[test]
fn startup_fails_when_no_interpreter_instantiates() {
    let r = initialize_engine(demo_config(), demo_workflow(), demo_fetched(), 4, false);
    assert!(matches!(r, Err(StartError::Build(_))));
}

#[test]
fn cyclic_workflow_document_is_rejected_at_load_time() {
    let doc = "
name: loopy
nodes:
  - object_name: a
    plugin_function_name: f
  - object_name: b
    plugin_function_name: g
node_holes: []
edge_property: directed
edges:
  - [0, 1, null]
  - [1, 0, null]
";
    let r = parse_workflow_document(doc.as_bytes());
    assert!(matches!(r, Err(deadlift::errors::ConfigError::Cycle)));
}

#[test]
fn plugin_config_passes_runtime_settings_through() {
    let plugin = PluginConfig {
        wasi: false,
        allowed_hosts: vec!["example.com".to_string()],
        extism_config: Some(vec![("k".to_string(), "v".to_string())]),
    };
    let g = WorkflowGraph::new(vec![], vec![]).unwrap();
    let m = deadlift::manifest::build_manifest(&g, vec![], &plugin).unwrap();
    assert!(!m.wasi);
    assert_eq!(m.allowed_hosts, vec!["example.com".to_string()]);
    assert_eq!(m.runtime_config, vec![("k".to_string(), "v".to_string())]);
}

#[test]
fn bucket_names_and_cap_are_fixed() {
    assert_eq!(deadlift::module_bucket_name(), "wasm");
    assert_eq!(deadlift::workflow_bucket_name(), "workflows");
    assert_eq!(deadlift::default_nats_url(), "localhost:4222");
    assert!(deadlift::default_true());
    assert_eq!(deadlift::MAX_IN_FLIGHT, 100);
}
