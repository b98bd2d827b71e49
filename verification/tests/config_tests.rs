use deadlift::config::{
    get_extism_config_from_str, parse_workflow_document, require_config, EngineConfig,
    NatsAuthentication,
};

#[test]
fn test_deserialize_config() {
    let result = require_config(
        "
            wasm:
                - object_name: make-auth-call
                  namespace: main
                  hash: 123abc
                  plugin_functions:
                    - _main
                - object_name: create-pop-token
                  namespace: create_pop_token
                  hash: 123abd
                  plugin_functions: []
                - object_name: create-jti
                  namespace: create_jti
                  hash: 123abe
                  plugin_functions: []
            workflow:
                name: test
                nodes: []
                node_holes: []
                edge_property: directed
                edges: []
            nats:
                url: localhost:4222
                auth: !BearerJwt jwt
                enable_execution_thread: true
                enable_watcher_thread: true
            plugin:
                wasi: true
                allowed_hosts: []
    "
        .as_bytes()
        .to_vec(),
    );

    let config = match result {
        Ok(c) => c,
        Err(e) => panic!("{}", config_err_name(&e)),
    };
    assert_eq!(config.workflow.name, "test");
    assert_eq!(config.nats.url, "localhost:4222");
    assert!(matches!(config.nats.auth, NatsAuthentication::BearerJwt(ref j) if j == "jwt"));
    assert!(config.nats.enable_execution_thread);
    assert!(config.nats.enable_watcher_thread);
    assert!(config.plugin.wasi);
    assert!(config.plugin.allowed_hosts.is_empty());
    assert!(config.plugin.extism_config.is_none());
}

fn config_err_name(e: &deadlift::errors::ConfigError) -> &'static str {
    match e {
        deadlift::errors::ConfigError::Malformed(_) => "malformed",
        deadlift::errors::ConfigError::MissingField(_) => "missing field",
        deadlift::errors::ConfigError::WrongType(_) => "wrong type",
        deadlift::errors::ConfigError::UnknownStage(_) => "unknown stage",
        deadlift::errors::ConfigError::Cycle => "cycle",
    }
}

#[test]
fn defaults_apply_when_fields_are_absent() {
    let config = require_config("nats: {}\nplugin: {}\n".as_bytes().to_vec()).unwrap();
    assert_eq!(config.nats.url, "localhost:4222");
    assert!(matches!(config.nats.auth, NatsAuthentication::NoAuth));
    assert!(config.nats.enable_execution_thread);
    assert!(config.nats.enable_watcher_thread);
    assert!(config.plugin.wasi);
    assert!(config.plugin.allowed_hosts.is_empty());
    assert_eq!(config.workflow.name, "");
    assert_eq!(config.workflow.graph.stage_count(), 0);
}

#[test]
fn missing_nats_section_is_rejected() {
    let r = require_config("plugin: {}\n".as_bytes().to_vec());
    assert!(matches!(r, Err(deadlift::errors::ConfigError::MissingField(ref f)) if f == "nats"));
}

#[test]
fn missing_plugin_section_is_rejected() {
    let r = require_config("nats: {}\n".as_bytes().to_vec());
    assert!(matches!(r, Err(deadlift::errors::ConfigError::MissingField(ref f)) if f == "plugin"));
}

#[test]
fn malformed_yaml_is_rejected() {
    let r = require_config(": : :\n  - ]".as_bytes().to_vec());
    assert!(matches!(r, Err(deadlift::errors::ConfigError::Malformed(_))));
}

#[test]
fn plugin_section_is_decoded() {
    let config = require_config(
        "nats: {}\nplugin:\n  wasi: false\n  allowed_hosts:\n    - example.com\n    - example.org\n  extism_config:\n    a: b\n    c: d\n"
            .as_bytes()
            .to_vec(),
    )
    .unwrap();
    assert!(!config.plugin.wasi);
    assert_eq!(
        config.plugin.allowed_hosts,
        vec!["example.com".to_string(), "example.org".to_string()]
    );
    let kv = config.plugin.extism_config.unwrap();
    assert_eq!(kv.len(), 2);
    assert_eq!(kv[0], ("a".to_string(), "b".to_string()));
    assert_eq!(kv[1], ("c".to_string(), "d".to_string()));
}

#[test]
fn auth_from_str_accepts_each_form() {
    assert!(matches!(
        NatsAuthentication::from_str("none"),
        Ok(NatsAuthentication::NoAuth)
    ));
    assert!(matches!(
        NatsAuthentication::from_str("BearerJwt: abc"),
        Ok(NatsAuthentication::BearerJwt(ref j)) if j == "abc"
    ));
    assert!(matches!(
        NatsAuthentication::from_str("Creds: /tmp/user.creds"),
        Ok(NatsAuthentication::Creds(ref c)) if c == "/tmp/user.creds"
    ));
    let err = match NatsAuthentication::from_str("token xyz") {
        Err(e) => e,
        Ok(_) => panic!("expected a rejection"),
    };
    assert_eq!(err, "Invalid authentication method: token xyz");
}

#[test]
fn auth_text_round_trips() {
    let auth = NatsAuthentication::BearerJwt("tok".to_string());
    let text = auth.to_config_string();
    assert_eq!(text, "BearerJwt: tok");
    assert!(matches!(
        NatsAuthentication::from_str(&text),
        Ok(NatsAuthentication::BearerJwt(ref j)) if j == "tok"
    ));
}

#[test]
fn extism_config_text_is_parsed_exactly() {
    let kv = get_extism_config_from_str("a=1,b=2,c=x=y").unwrap();
    assert_eq!(
        kv,
        vec![
            ("a".to_string(), "1".to_string()),
            ("b".to_string(), "2".to_string()),
            ("c".to_string(), "x=y".to_string()),
        ]
    );
    let kv = get_extism_config_from_str("=v").unwrap();
    assert_eq!(kv, vec![("".to_string(), "v".to_string())]);
}

#[test]
fn extism_config_text_collapses_repeated_keys() {
    let kv = get_extism_config_from_str("a=1,b=2,a=3").unwrap();
    assert_eq!(
        kv,
        vec![("a".to_string(), "3".to_string()), ("b".to_string(), "2".to_string())]
    );
}

#[test]
fn extism_config_text_without_value_is_rejected() {
    assert_eq!(get_extism_config_from_str("a"), Err("value must be a string".to_string()));
    assert_eq!(get_extism_config_from_str(""), Err("value must be a string".to_string()));
    assert_eq!(get_extism_config_from_str("a=1,b"), Err("value must be a string".to_string()));
}

#[test]
fn workflow_document_with_stages_is_decoded() {
    let doc = "
name: pipeline
nodes:
  - object_name: upper
    namespace: main
    hash: h1
    plugin_function_name: transform
  - object_name: bang
    namespace: null
    hash: null
    plugin_function_name: transform
node_holes: []
edge_property: directed
edges:
  - [0, 1, null]
";
    let wf = parse_workflow_document(doc.as_bytes()).unwrap();
    assert_eq!(wf.name, "pipeline");
    assert_eq!(wf.graph.stage_count(), 2);
    assert_eq!(wf.graph.stage(0).object_name, "upper");
    assert_eq!(wf.graph.stage(0).namespace.as_deref(), Some("main"));
    assert_eq!(wf.graph.stage(0).hash.as_deref(), Some("h1"));
    assert_eq!(wf.graph.stage(1).object_name, "bang");
    assert!(wf.graph.stage(1).namespace.is_none());
    assert_eq!(wf.graph.edge_list(), &vec![(0usize, 1usize)]);
}

#[test]
fn engine_config_round_trips_through_workflow_section() {
    let text = "
workflow:
  name: wf
  nodes:
    - object_name: m1
      plugin_function_name: f1
  node_holes: []
  edge_property: directed
  edges: []
nats: {}
plugin: {}
";
    let config: EngineConfig = require_config(text.as_bytes().to_vec()).unwrap();
    assert_eq!(config.workflow.name, "wf");
    assert_eq!(config.workflow.graph.stage_count(), 1);
    assert_eq!(config.workflow.graph.stage(0).object_name, "m1");
}
