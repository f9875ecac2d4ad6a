use orchestrix::json_value::{JsonNumber, JsonValue};
use orchestrix::run_context::{run_context_document, run_metadata};

fn keys(v: &JsonValue) -> Vec<String> {
    match v {
        JsonValue::Object(entries) => entries.iter().map(|(k, _)| k.clone()).collect(),
        _ => panic!("an object"),
    }
}

#[test]
fn run_metadata_reads_back_what_was_recorded() {
    let doc = run_context_document("plan", "minimax", Some("MiniMax-M2.1"), None);
    assert_eq!(keys(&doc), vec!["metadata_version", "mode", "provider", "model", "agent_preset"]);
    assert_eq!(
        run_metadata(&doc),
        (Some("plan".to_string()), Some("minimax".to_string()), Some("MiniMax-M2.1".to_string()))
    );
    let doc = run_context_document("build", "kimi", None, Some(JsonValue::Bool(true)));
    assert_eq!(run_metadata(&doc), (Some("build".to_string()), Some("kimi".to_string()), None));
}

#[test]
fn unreadable_metadata_gives_nothing() {
    let wrong = JsonValue::Object(vec![
        ("mode".to_string(), JsonValue::String("plan".to_string())),
        ("model".to_string(), JsonValue::Number(JsonNumber { text: "3".to_string(), int: Some(3) })),
    ]);
    assert_eq!(run_metadata(&wrong), (None, None, None));
    let partial = JsonValue::Object(vec![("provider".to_string(), JsonValue::String("zhipu".to_string()))]);
    assert_eq!(run_metadata(&partial), (None, Some("zhipu".to_string()), None));
    let positional = JsonValue::Array(vec![
        JsonValue::String("plan".to_string()),
        JsonValue::Null,
        JsonValue::String("glm-5".to_string()),
    ]);
    assert_eq!(run_metadata(&positional), (Some("plan".to_string()), None, Some("glm-5".to_string())));
    assert_eq!(run_metadata(&JsonValue::Array(vec![])), (None, None, None));
    assert_eq!(run_metadata(&JsonValue::Null), (None, None, None));
}
