use deadlift::config::WorkflowStage;
use deadlift::errors::ConfigError;
use deadlift::graph::WorkflowGraph;

fn stage(name: &str, func: &str) -> WorkflowStage {
    WorkflowStage {
        object_name: name.to_string(),
        namespace: None,
        hash: None,
        plugin_function_name: func.to_string(),
    }
}

fn named_stage(name: &str, ns: &str, hash: &str, func: &str) -> WorkflowStage {
    WorkflowStage {
        object_name: name.to_string(),
        namespace: Some(ns.to_string()),
        hash: Some(hash.to_string()),
        plugin_function_name: func.to_string(),
    }
}

#[test]
fn edge_to_unknown_stage_is_rejected() {
    let stages = vec![stage("a", "f"), stage("b", "g")];
    let r = WorkflowGraph::new(stages, vec![(0, 2)]);
    assert!(matches!(r, Err(ConfigError::UnknownStage(2))));
}

#[test]
fn resolution_order_is_topological() {
    // diamond: 0 -> 1, 0 -> 2, 1 -> 3, 2 -> 3
    let stages = vec![stage("a", "f"), stage("b", "f"), stage("c", "f"), stage("d", "f")];
    let g = WorkflowGraph::new(stages, vec![(0, 1), (0, 2), (1, 3), (2, 3)]).unwrap();
    let order = g.resolution_order().unwrap();
    assert_eq!(order.len(), 4);
    let pos = |v: usize| order.iter().position(|&x| x == v).unwrap();
    assert!(pos(0) < pos(1));
    assert!(pos(0) < pos(2));
    assert!(pos(1) < pos(3));
    assert!(pos(2) < pos(3));
}

#[test]
fn cyclic_graph_is_rejected() {
    let stages = vec![stage("a", "f"), stage("b", "f"), stage("c", "f")];
    let g = WorkflowGraph::new(stages, vec![(0, 1), (1, 2), (2, 0)]).unwrap();
    assert!(matches!(g.resolution_order(), Err(ConfigError::Cycle)));
}

#[test]
fn self_loop_is_rejected() {
    let g = WorkflowGraph::new(vec![stage("a", "f")], vec![(0, 0)]).unwrap();
    assert!(matches!(g.resolution_order(), Err(ConfigError::Cycle)));
}

#[test]
fn empty_graph_resolves_to_empty_order() {
    let g = WorkflowGraph::new(vec![], vec![]).unwrap();
    assert_eq!(g.resolution_order().unwrap(), Vec::<usize>::new());
}

#[test]
fn graph_document_round_trip_preserves_stages_and_edges() {
    let stages = vec![
        named_stage("upper", "main", "aaa", "transform"),
        stage("bang", "append"),
        named_stage("sink", "out", "bbb", "store"),
    ];
    let g = WorkflowGraph::new(stages, vec![(0, 1), (1, 2)]).unwrap();
    let doc = g.to_doc();
    let back = WorkflowGraph::from_doc(&doc).unwrap();
    assert_eq!(back.stage_count(), 3);
    for i in 0..3 {
        assert_eq!(back.stage(i).object_name, g.stage(i).object_name);
        assert_eq!(back.stage(i).namespace, g.stage(i).namespace);
        assert_eq!(back.stage(i).hash, g.stage(i).hash);
        assert_eq!(back.stage(i).plugin_function_name, g.stage(i).plugin_function_name);
    }
    assert_eq!(back.edge_list(), g.edge_list());
}

#[test]
fn module_names_follow_stage_order() {
    let g = WorkflowGraph::new(vec![stage("m1", "f"), stage("m2", "g")], vec![]).unwrap();
    assert_eq!(g.module_names(), vec!["m1".to_string(), "m2".to_string()]);
    assert!(g.contains_module("m1"));
    assert!(g.contains_module("m2"));
    assert!(!g.contains_module("m3"));
}
