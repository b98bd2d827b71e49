use deadlift::config::{PluginConfig, WorkflowStage};
use deadlift::dispatch::{
    executions_queue_group, executions_subject_prefix, function_name_from_subject, reply_payload,
    ExecutionRequest,
};
use deadlift::errors::{CallError, DispatchError};
use deadlift::graph::WorkflowGraph;
use deadlift::manifest::{build_manifest, FetchedModule, Manifest};
use deadlift::pool::InterpreterPool;

fn stage(name: &str, func: &str) -> WorkflowStage {
    WorkflowStage {
        object_name: name.to_string(),
        namespace: None,
        hash: None,
        plugin_function_name: func.to_string(),
    }
}

fn manifest_for(graph: &WorkflowGraph) -> Manifest {
    let fetched = (0..graph.stage_count())
        .map(|i| FetchedModule {
            bytes: format!("code-{i}").into_bytes(),
            digest: format!("d{i}"),
        })
        .collect();
    build_manifest(
        graph,
        fetched,
        &PluginConfig { wasi: true, allowed_hosts: vec![], extism_config: None },
    )
    .unwrap()
}

#[test]
fn subject_constants_follow_the_naming_convention() {
    assert_eq!(executions_subject_prefix(), "deadlift.executions.");
    assert_eq!(executions_queue_group(), "deadlift_executions");
}

#[test]
fn function_name_is_the_final_subject_token() {
    assert_eq!(function_name_from_subject("deadlift.executions.transform"), "transform");
    assert_eq!(function_name_from_subject("a.b.c"), "c");
    assert_eq!(function_name_from_subject("plain"), "plain");
    assert_eq!(function_name_from_subject("trailing."), "");
    assert_eq!(function_name_from_subject(""), "");
}

#[test]
fn reply_payload_carries_result_or_error_text() {
    assert_eq!(reply_payload(Ok(b"out".to_vec())), b"out".to_vec());
    assert_eq!(
        reply_payload(Err(CallError::Trap("overflow".to_string()))),
        b"plugin call trapped: overflow".to_vec()
    );
}

#[test]
fn dispatch_replies_on_the_reply_address() {
    let g = WorkflowGraph::new(vec![stage("m", "f")], vec![]).unwrap();
    let mut pool = InterpreterPool::new("wf".to_string(), manifest_for(&g), 1);
    let mut req = ExecutionRequest::new(
        "deadlift.executions.f".to_string(),
        b"in".to_vec(),
        Some("inbox.1".to_string()),
    );
    assert_eq!(req.function_name(), "f");
    let c = req.begin(&mut pool, "wf").unwrap();
    let reply = req.finish(&mut pool, c, Ok(b"result".to_vec()));
    assert_eq!(reply, Some(("inbox.1".to_string(), b"result".to_vec())));
}

#[test]
fn fire_and_forget_discards_the_result() {
    let g = WorkflowGraph::new(vec![stage("m", "f")], vec![]).unwrap();
    let mut pool = InterpreterPool::new("wf".to_string(), manifest_for(&g), 1);
    let mut req = ExecutionRequest::new(
        "deadlift.executions.f".to_string(),
        b"in".to_vec(),
        None,
    );
    let c = req.begin(&mut pool, "wf").unwrap();
    assert_eq!(req.finish(&mut pool, c, Ok(b"result".to_vec())), None);
}

#[test]
fn exhausted_pool_times_the_request_out() {
    let g = WorkflowGraph::new(vec![stage("m", "f")], vec![]).unwrap();
    let mut pool = InterpreterPool::new("wf".to_string(), manifest_for(&g), 1);
    let mut first = ExecutionRequest::new(
        "deadlift.executions.f".to_string(),
        vec![],
        Some("inbox.1".to_string()),
    );
    let held = first.begin(&mut pool, "wf").unwrap();
    let mut second = ExecutionRequest::new(
        "deadlift.executions.f".to_string(),
        vec![],
        Some("inbox.2".to_string()),
    );
    let err = match second.begin(&mut pool, "wf") {
        Err(e) => e,
        Ok(_) => panic!("expected a timeout"),
    };
    assert!(matches!(err, DispatchError::Timeout));
    assert_eq!(err.message(), "failed to resolve plugin; timed out");
    first.finish(&mut pool, held, Ok(vec![]));
}

// Stage A uppercases its input and stage B appends `!`; dispatching the two
// stages in resolution order over the raw input `hello` must produce
// exactly `HELLO!`.
#[test]
fn two_stage_workflow_produces_hello_bang() {
    let stages = vec![stage("upper-module", "upper"), stage("bang-module", "bang")];
    let g = WorkflowGraph::new(stages, vec![(0, 1)]).unwrap();
    let order = g.resolution_order().unwrap();
    let mut pool = InterpreterPool::new("wf".to_string(), manifest_for(&g), 1);

    // the sandboxed functions of the two modules, as pure byte transforms
    let invoke = |name: &str, input: &[u8]| -> Result<Vec<u8>, CallError> {
        match name {
            "upper" => Ok(input.to_ascii_uppercase()),
            "bang" => {
                let mut out = input.to_vec();
                out.push(b'!');
                Ok(out)
            },
            other => Err(CallError::FunctionMissing(other.to_string())),
        }
    };

    let mut current = b"hello".to_vec();
    for &idx in &order {
        let func = g.stage(idx).plugin_function_name.clone();
        let subject = format!("{}{}", executions_subject_prefix(), func);
        let mut req = ExecutionRequest::new(subject, current.clone(), Some("inbox".to_string()));
        let c = req.begin(&mut pool, "wf").unwrap();
        let outcome = invoke(&req.function_name(), &req.payload);
        let (_, bytes) = req.finish(&mut pool, c, outcome).unwrap();
        current = bytes;
    }
    assert_eq!(current, b"HELLO!".to_vec());
}

// Two agent processes share one consumer group: the (simulated) bus hands
// each of ten distinct requests to exactly one of them, and the caller
// sees all ten replies exactly once.
#[test]
fn competing_consumers_each_handle_every_message_once() {
    let g = WorkflowGraph::new(vec![stage("m", "echo")], vec![]).unwrap();
    let mut agent_a = InterpreterPool::new("wf".to_string(), manifest_for(&g), 1);
    let mut agent_b = InterpreterPool::new("wf".to_string(), manifest_for(&g), 1);

    let mut replies: Vec<(String, Vec<u8>)> = Vec::new();
    for n in 0..10u8 {
        // the queue group delivers each message to exactly one member
        let pool = if n % 2 == 0 { &mut agent_a } else { &mut agent_b };
        let mut req = ExecutionRequest::new(
            "deadlift.executions.echo".to_string(),
            vec![n],
            Some(format!("inbox.{n}")),
        );
        let c = req.begin(pool, "wf").unwrap();
        let outcome = Ok(req.payload.clone());
        let reply = req.finish(pool, c, outcome).unwrap();
        replies.push(reply);
    }
    assert_eq!(replies.len(), 10);
    for n in 0..10u8 {
        let matching: Vec<_> =
            replies.iter().filter(|(addr, _)| addr == &format!("inbox.{n}")).collect();
        assert_eq!(matching.len(), 1);
        assert_eq!(matching[0].1, vec![n]);
    }
}
