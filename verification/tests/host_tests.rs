use deadlift::document::ConfigValue;
use deadlift::errors::CallError;
use deadlift::host::{
    check_schema, combine_batch_outcomes, http_requests_from_doc, parse_column_type, shape_rows,
    CellValue, ColumnType, HttpResponseRecord,
};

#[test]
fn declared_column_types_are_resolved() {
    assert!(matches!(parse_column_type("string"), Ok(ColumnType::Text)));
    assert!(matches!(parse_column_type("integer"), Ok(ColumnType::Integer)));
    assert!(matches!(parse_column_type("float"), Ok(ColumnType::Float)));
    assert!(matches!(parse_column_type("boolean"), Ok(ColumnType::Boolean)));
}

#[test]
fn unsupported_column_type_is_a_call_error() {
    let err = parse_column_type("date").unwrap_err();
    assert!(matches!(err, CallError::UnsupportedSchemaType(ref t) if t == "date"));
    assert_eq!(err.message(), "unsupported schema type: date");
}

#[test]
fn schema_check_resolves_every_column() {
    let schema = vec![
        ("id".to_string(), "integer".to_string()),
        ("name".to_string(), "string".to_string()),
        ("active".to_string(), "boolean".to_string()),
    ];
    let cols = check_schema(&schema).unwrap();
    assert_eq!(cols.len(), 3);
    assert_eq!(cols[0].0, "id");
    assert!(matches!(cols[0].1, ColumnType::Integer));
    assert!(matches!(cols[1].1, ColumnType::Text));
    assert!(matches!(cols[2].1, ColumnType::Boolean));

    let bad = vec![("ts".to_string(), "timestamp".to_string())];
    assert!(matches!(
        check_schema(&bad),
        Err(CallError::UnsupportedSchemaType(ref t)) if t == "timestamp"
    ));
}

#[test]
fn rows_are_shaped_into_named_records() {
    let cols = vec![
        ("id".to_string(), ColumnType::Integer),
        ("name".to_string(), ColumnType::Text),
    ];
    let rows = vec![
        vec![CellValue::Integer(1), CellValue::Text("one".to_string())],
        vec![CellValue::Integer(2), CellValue::Text("two".to_string())],
    ];
    let recs = shape_rows(&cols, rows).unwrap();
    assert_eq!(recs.len(), 2);
    assert_eq!(recs[0][0].0, "id");
    assert!(matches!(recs[0][0].1, CellValue::Integer(1)));
    assert_eq!(recs[1][1].0, "name");
    assert!(matches!(recs[1][1].1, CellValue::Text(ref s) if s == "two"));
}

#[test]
fn mismatched_cell_type_is_a_decode_error() {
    let cols = vec![("id".to_string(), ColumnType::Integer)];
    let rows = vec![vec![CellValue::Text("oops".to_string())]];
    assert!(matches!(shape_rows(&cols, rows), Err(CallError::Decode(_))));
    let cols = vec![("id".to_string(), ColumnType::Integer)];
    let short = vec![vec![]];
    assert!(matches!(shape_rows(&cols, short), Err(CallError::Decode(_))));
}

fn response(url: &str, status: u16, body: &str) -> HttpResponseRecord {
    HttpResponseRecord {
        url: url.to_string(),
        method: "GET".to_string(),
        status,
        body: body.to_string(),
    }
}

// Three request descriptors where one targets an unreachable host: the
// whole batch fails with a call-level error (all-or-nothing policy).
#[test]
fn batch_with_one_unreachable_host_fails_whole() {
    let outcomes = vec![
        Ok(response("http://a.example", 200, "a")),
        Err("error sending request: unreachable.example".to_string()),
        Ok(response("http://c.example", 200, "c")),
    ];
    let err = combine_batch_outcomes(outcomes).unwrap_err();
    assert!(matches!(
        err,
        CallError::HostCall(ref m) if m == "error sending request: unreachable.example"
    ));
}

#[test]
fn batch_of_successes_returns_every_response() {
    let outcomes = vec![
        Ok(response("http://a.example", 200, "a")),
        Ok(response("http://b.example", 404, "b")),
    ];
    let resps = combine_batch_outcomes(outcomes).unwrap();
    assert_eq!(resps.len(), 2);
    assert_eq!(resps[0].url, "http://a.example");
    assert_eq!(resps[0].status, 200);
    assert_eq!(resps[1].status, 404);
    assert_eq!(resps[1].body, "b");
}

fn str_node(s: &str) -> ConfigValue {
    ConfigValue::Str(s.to_string())
}

fn request_node(url: Option<&str>, method: Option<&str>) -> ConfigValue {
    let mut entries = vec![];
    if let Some(u) = url {
        entries.push((str_node("url"), str_node(u)));
    }
    if let Some(m) = method {
        entries.push((str_node("method"), str_node(m)));
    }
    entries.push((
        str_node("headers"),
        ConfigValue::Mapping(vec![
            (str_node("accept"), str_node("text/plain")),
            (str_node("attempts"), ConfigValue::Int(3)),
        ]),
    ));
    entries.push((str_node("body"), str_node("ping")));
    ConfigValue::Mapping(entries)
}

#[test]
fn request_descriptors_are_validated() {
    let batch = ConfigValue::Sequence(vec![
        request_node(Some("http://a.example"), Some("GET")),
        request_node(Some("http://b.example"), Some("POST")),
    ]);
    let plans = http_requests_from_doc(&batch).unwrap();
    assert_eq!(plans.len(), 2);
    assert_eq!(plans[0].url, "http://a.example");
    assert_eq!(plans[0].method, "GET");
    // the non-string header value is dropped, the string one kept
    assert_eq!(plans[0].headers, vec![("accept".to_string(), "text/plain".to_string())]);
    assert!(plans[0].has_body);
    assert_eq!(plans[1].method, "POST");
}

#[test]
fn request_descriptor_without_url_is_rejected() {
    let batch = ConfigValue::Sequence(vec![request_node(None, Some("GET"))]);
    assert!(matches!(http_requests_from_doc(&batch), Err(CallError::Decode(_))));
    let not_a_batch = str_node("nope");
    assert!(matches!(http_requests_from_doc(&not_a_batch), Err(CallError::Decode(_))));
}
