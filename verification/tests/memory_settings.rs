use orchestrix::json_value::{JsonNumber, JsonValue};
use orchestrix::preferences::{resolve_auto_memory_setting, set_settings_switch, settings_switch_of};

fn obj(entries: Vec<(&str, JsonValue)>) -> JsonValue {
    JsonValue::Object(entries.into_iter().map(|(k, v)| (k.to_string(), v)).collect())
}

fn keys_and_switch(v: &JsonValue) -> (Vec<String>, Option<bool>) {
    match v {
        JsonValue::Object(entries) => (
            entries.iter().map(|(k, _)| k.clone()).collect(),
            settings_switch_of(v),
        ),
        _ => panic!("settings are an object"),
    }
}

#[test]
fn settings_source_follows_the_precedence() {
    let r = resolve_auto_memory_setting(Some(" YES "), Some("1"), Some(true));
    assert!(!r.enabled);
    assert_eq!(r.source, "env:ORCHESTRIX_DISABLE_AUTO_MEMORY");
    let r = resolve_auto_memory_setting(Some("no"), Some(" False"), Some(true));
    assert!(!r.enabled);
    assert_eq!(r.source, "env:ORCHESTRIX_AUTO_MEMORY_ENABLED");
    let r = resolve_auto_memory_setting(None, Some("yes"), Some(false));
    assert!(r.enabled);
    assert_eq!(r.source, "env:ORCHESTRIX_AUTO_MEMORY_ENABLED");
    let r = resolve_auto_memory_setting(None, Some("maybe"), Some(false));
    assert!(!r.enabled);
    assert_eq!(r.source, "project");
    let r = resolve_auto_memory_setting(None, None, None);
    assert!(r.enabled);
    assert_eq!(r.source, "default");
}

#[test]
fn the_switch_is_read_only_when_boolean() {
    assert_eq!(settings_switch_of(&obj(vec![("autoMemoryEnabled", JsonValue::Bool(false))])), Some(false));
    assert_eq!(
        settings_switch_of(&obj(vec![("autoMemoryEnabled", JsonValue::String("false".to_string()))])),
        None
    );
    assert_eq!(settings_switch_of(&JsonValue::Null), None);
}

#[test]
fn setting_the_switch_keeps_other_settings() {
    let doc = obj(vec![
        ("theme", JsonValue::String("dark".to_string())),
        ("autoMemoryEnabled", JsonValue::Bool(true)),
        ("limit", JsonValue::Number(JsonNumber { text: "3".to_string(), int: Some(3) })),
    ]);
    let out = set_settings_switch(Some(doc), false);
    assert_eq!(
        keys_and_switch(&out),
        (vec!["theme".to_string(), "autoMemoryEnabled".to_string(), "limit".to_string()], Some(false))
    );
    let out = set_settings_switch(Some(obj(vec![("theme", JsonValue::Null)])), true);
    assert_eq!(
        keys_and_switch(&out),
        (vec!["theme".to_string(), "autoMemoryEnabled".to_string()], Some(true))
    );
    let out = set_settings_switch(Some(JsonValue::Array(vec![])), true);
    assert_eq!(keys_and_switch(&out), (vec!["autoMemoryEnabled".to_string()], Some(true)));
    let out = set_settings_switch(None, false);
    assert_eq!(keys_and_switch(&out), (vec!["autoMemoryEnabled".to_string()], Some(false)));
}
