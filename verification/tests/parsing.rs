use ralph::json::{parse_task_list, JsonValue};
use ralph::task_list::{LoadError, Status};

#[test]
fn parses_a_full_task_list() {
    let text = r#"{
        "project": "demo",
        "features": [
            {
                "id": "feat-1",
                "title": "First",
                "description": "does a thing",
                "status": "passing",
                "acceptance_criteria": ["compiles", "runs"]
            },
            {
                "id": "feat-2",
                "name": "Second",
                "status": "pending"
            }
        ]
    }"#;
    let t = parse_task_list(text).expect("well-shaped document");
    assert_eq!(t.project, "demo");
    assert_eq!(t.features.len(), 2);
    assert_eq!(t.features[0].id, "feat-1");
    assert_eq!(t.features[0].title, "First");
    assert_eq!(t.features[0].description, "does a thing");
    assert_eq!(t.features[0].status, Status::Passing);
    assert_eq!(t.features[0].acceptance_criteria, vec!["compiles", "runs"]);
    assert_eq!(t.features[1].title, "Second");
    assert_eq!(t.features[1].description, "");
    assert_eq!(t.features[1].status, Status::Pending);
    assert!(t.features[1].acceptance_criteria.is_empty());
    assert!(!t.is_complete());
}

#[test]
fn parses_every_status_value() {
    for (name, status) in [
        ("pending", Status::Pending),
        ("inprogress", Status::InProgress),
        ("failing", Status::Failing),
        ("passing", Status::Passing),
    ] {
        let text = format!(
            r#"{{"project":"p","features":[{{"id":"a","title":"A","status":"{}"}}]}}"#,
            name
        );
        let t = parse_task_list(&text).expect("well-shaped document");
        assert_eq!(t.features[0].status, status);
    }
}

#[test]
fn empty_feature_array_parses_as_empty() {
    let t = parse_task_list(r#"{"project":"p","features":[]}"#).expect("well-shaped");
    assert!(t.features.is_empty());
    assert!(!t.is_complete());
}

#[test]
fn invalid_json_is_malformed() {
    assert!(matches!(parse_task_list("not json at all"), Err(LoadError::Malformed)));
    assert!(matches!(parse_task_list(""), Err(LoadError::Malformed)));
    assert!(matches!(parse_task_list("{\"project\": "), Err(LoadError::Malformed)));
}

#[test]
fn wrong_shapes_are_malformed() {
    // root not an object
    assert!(matches!(parse_task_list("[1,2,3]"), Err(LoadError::Malformed)));
    // project missing
    assert!(matches!(parse_task_list(r#"{"features":[]}"#), Err(LoadError::Malformed)));
    // project not a string
    assert!(matches!(parse_task_list(r#"{"project":3,"features":[]}"#), Err(LoadError::Malformed)));
    // features missing
    assert!(matches!(parse_task_list(r#"{"project":"p"}"#), Err(LoadError::Malformed)));
    // features not an array
    assert!(matches!(parse_task_list(r#"{"project":"p","features":{}}"#), Err(LoadError::Malformed)));
    // feature missing its id
    assert!(matches!(parse_task_list(r#"{"project":"p","features":[{"title":"A","status":"pending"}]}"#), Err(LoadError::Malformed)));
    // feature missing both title and name
    assert!(matches!(parse_task_list(r#"{"project":"p","features":[{"id":"a","status":"pending"}]}"#), Err(LoadError::Malformed)));
    // unknown status string
    assert!(matches!(parse_task_list(r#"{"project":"p","features":[{"id":"a","title":"A","status":"done"}]}"#), Err(LoadError::Malformed)));
    // status case-sensitive
    assert!(matches!(parse_task_list(
            r#"{"project":"p","features":[{"id":"a","title":"A","status":"Passing"}]}"#
        ), Err(LoadError::Malformed)));
    // acceptance_criteria holding a non-string
    assert!(matches!(parse_task_list(
            r#"{"project":"p","features":[{"id":"a","title":"A","status":"pending","acceptance_criteria":["ok",5]}]}"#
        ), Err(LoadError::Malformed)));
    // description not a string
    assert!(matches!(parse_task_list(
            r#"{"project":"p","features":[{"id":"a","title":"A","description":7,"status":"pending"}]}"#
        ), Err(LoadError::Malformed)));
}

#[test]
fn unknown_fields_are_ignored() {
    let text = r#"{
        "project": "p",
        "extra": {"nested": [1, 2, {"deep": null}]},
        "features": [
            {"id": "a", "title": "A", "status": "passing", "note": true, "weight": 1.5}
        ]
    }"#;
    let t = parse_task_list(text).expect("unknown fields ignored");
    assert_eq!(t.features.len(), 1);
    assert!(t.is_complete());
}

#[test]
fn feature_from_json_reads_a_feature_object() {
    let text = r#"{"id":"x","title":"X","status":"failing"}"#;
    let parsed: serde_json::Value = serde_json::from_str(text).unwrap();
    // Build the same object through the library's own value type.
    let entries = match parsed {
        serde_json::Value::Object(m) => m,
        _ => unreachable!(),
    };
    let mut obj: Vec<(String, JsonValue)> = Vec::new();
    for (k, v) in entries {
        let jv = match v {
            serde_json::Value::String(s) => JsonValue::Str(s),
            _ => unreachable!(),
        };
        obj.push((k, jv));
    }
    let f = ralph::json::feature_from_json(&JsonValue::Obj(obj)).expect("well-shaped feature");
    assert_eq!(f.id, "x");
    assert_eq!(f.title, "X");
    assert_eq!(f.status, Status::Failing);
}

#[test]
fn status_from_string_rejects_unknown_names() {
    assert_eq!(
        ralph::json::status_from_string(&"passing".to_string()),
        Some(Status::Passing)
    );
    assert_eq!(ralph::json::status_from_string(&"PASSING".to_string()), None);
    assert_eq!(ralph::json::status_from_string(&"".to_string()), None);
}
