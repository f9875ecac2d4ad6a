use orchestrix::json_value::{find_key_recursive, JsonNumber, JsonValue};
use orchestrix::provider_usage::{
    auth_header, error_snapshot, looks_like_chatgpt_oauth_payload, modal_models_url,
    not_configured_snapshot, pick_minimax_model_remains, pick_minimax_model_remains_checked,
    remains_fit_check, reply_usage_snapshot_checked, pick_quota_percentage, pick_stringish,
    reply_usage_snapshot, unsupported_snapshot, usage_source, usage_url, uses_bearer, UsageSource,
};

fn num(n: i64) -> JsonValue {
    JsonValue::Number(JsonNumber { text: n.to_string(), int: Some(n) })
}

fn s(v: &str) -> JsonValue {
    JsonValue::String(v.to_string())
}

fn obj(entries: Vec<(&str, JsonValue)>) -> JsonValue {
    JsonValue::Object(entries.into_iter().map(|(k, v)| (k.to_string(), v)).collect())
}

#[test]
fn parses_zai_quota_percentage() {
    let payload = obj(vec![
        ("code", num(200)),
        (
            "data",
            obj(vec![(
                "limits",
                JsonValue::Array(vec![
                    obj(vec![("type", s("TOKENS_LIMIT")), ("percentage", num(12))]),
                    obj(vec![("type", s("TIME_LIMIT")), ("percentage", num(1))]),
                ]),
            )]),
        ),
    ]);
    assert_eq!(pick_quota_percentage(&payload), Some("12".to_string()));
}

#[test]
fn parses_minimax_model_remains() {
    let payload = obj(vec![(
        "model_remains",
        JsonValue::Array(vec![
            obj(vec![
                ("model_name", s("MiniMax-M2")),
                ("current_interval_total_count", num(1500)),
                ("current_interval_usage_count", num(1483)),
            ]),
            obj(vec![
                ("model_name", s("MiniMax-M2.5")),
                ("current_interval_total_count", num(500)),
                ("current_interval_usage_count", num(490)),
            ]),
        ]),
    )]);
    assert_eq!(pick_minimax_model_remains(&payload), Some("27 prompts".to_string()));
}

#[test]
fn minimax_remains_never_negative_and_needs_counts() {
    let payload = obj(vec![(
        "model_remains",
        JsonValue::Array(vec![
            obj(vec![("current_interval_total_count", num(5)), ("current_interval_usage_count", num(9))]),
            obj(vec![("current_interval_total_count", num(3))]),
        ]),
    )]);
    assert_eq!(pick_minimax_model_remains(&payload), Some("0 prompts".to_string()));
    let none = obj(vec![("model_remains", JsonValue::Array(vec![obj(vec![])]))]);
    assert_eq!(pick_minimax_model_remains(&none), None);
}

#[test]
fn quota_type_is_case_insensitive() {
    let payload = obj(vec![(
        "limits",
        JsonValue::Array(vec![obj(vec![("type", s("tokens_limit")), ("percentage", s("40.5"))])]),
    )]);
    assert_eq!(pick_quota_percentage(&payload), Some("40.5".to_string()));
}

#[test]
fn find_key_prefers_own_entry_then_depth_first() {
    let v = obj(vec![
        ("a", obj(vec![("balance", num(1))])),
        ("balance", num(2)),
    ]);
    let key: Vec<char> = "balance".chars().collect();
    match find_key_recursive(&v, &key) {
        Some(JsonValue::Number(n)) => assert_eq!(n.text, "2"),
        other => panic!("unexpected {:?}", other),
    }
    let nested = JsonValue::Array(vec![obj(vec![("x", obj(vec![("balance", num(7))]))])]);
    match find_key_recursive(&nested, &key) {
        Some(JsonValue::Number(n)) => assert_eq!(n.text, "7"),
        other => panic!("unexpected {:?}", other),
    }
}

#[test]
fn stringish_skips_blank_and_null_values() {
    let v = obj(vec![
        ("available_balance", s("  ")),
        ("balance", JsonValue::Null),
        ("total_balance", JsonValue::Bool(true)),
    ]);
    assert_eq!(
        pick_stringish(&v, &vec!["available_balance", "balance", "total_balance"]),
        Some("true".to_string())
    );
    assert_eq!(pick_stringish(&v, &vec!["missing"]), None);
}

#[test]
fn usage_sources_and_requests() {
    assert_eq!(usage_source("minimax"), UsageSource::MiniMax);
    assert_eq!(usage_source("glm"), UsageSource::Zai);
    assert_eq!(usage_source("chatgpt"), UsageSource::OpenAi);
    assert_eq!(usage_source("MiniMax"), UsageSource::Unsupported);
    assert!(!uses_bearer(UsageSource::Zai));
    assert!(uses_bearer(UsageSource::Kimi));
    assert_eq!(auth_header("k", true), "Bearer k");
    assert_eq!(auth_header("k", false), "k");
    assert_eq!(usage_url(UsageSource::Kimi).as_deref(), Some("https://api.moonshot.ai/v1/users/me/balance"));
    assert_eq!(usage_url(UsageSource::Modal), None);
    assert_eq!(modal_models_url(Some(" https://x.example/v1// ")), "https://x.example/v1/models");
    assert_eq!(modal_models_url(None), "https://api.us-west-2.modal.direct/v1/models");
}

#[test]
fn snapshots_of_replies() {
    let kimi = obj(vec![("data", obj(vec![("available_balance", num(42)), ("currency", s("USD"))]))]);
    let r = reply_usage_snapshot(UsageSource::Kimi, "kimi", &kimi, "now");
    assert!(r.available);
    assert_eq!(r.status, "ok");
    assert_eq!(r.balance.as_deref(), Some("42"));
    assert_eq!(r.currency.as_deref(), Some("USD"));
    assert_eq!(r.remaining_quota, None);
    assert_eq!(r.note.as_deref(), Some("Fetched from Moonshot balance endpoint"));
    let modal = obj(vec![("data", JsonValue::Array(vec![s("a"), s("b")]))]);
    let r = reply_usage_snapshot(UsageSource::Modal, "modal", &modal, "now");
    assert!(r.available);
    assert_eq!(r.remaining_quota.as_deref(), Some("2 model(s)"));
    let zai = obj(vec![]);
    let r = reply_usage_snapshot(UsageSource::Zai, "zhipu", &zai, "now");
    assert!(!r.available);
    assert_eq!(r.period.as_deref(), Some("Coding Plan limits"));
}

#[test]
fn fixed_snapshots() {
    let r = not_configured_snapshot("kimi", "t");
    assert_eq!(r.status, "not_configured");
    assert_eq!(r.note.as_deref(), Some("Provider is not configured"));
    let r = unsupported_snapshot("foo", "t");
    assert_eq!(r.note.as_deref(), Some("Provider 'foo' is not supported for usage tracking"));
    let r = error_snapshot("kimi", "boom");
    assert_eq!(r.status, "error");
    assert_eq!(r.error.as_deref(), Some("boom"));
    assert_eq!(r.last_updated_at, None);
    let oauth = Some(obj(vec![("access_token", s("a")), ("refresh_token", s("b"))]));
    assert!(looks_like_chatgpt_oauth_payload(&oauth));
    assert!(!looks_like_chatgpt_oauth_payload(&Some(obj(vec![("access_token", s("a"))]))));
    assert!(!looks_like_chatgpt_oauth_payload(&None));
}

#[test]
fn checked_model_remains_refuses_overflowing_counts() {
    let item = |total: i64, used: i64| {
        obj(vec![("current_interval_total_count", num(total)), ("current_interval_usage_count", num(used))])
    };
    let fine = obj(vec![("model_remains", JsonValue::Array(vec![item(30, 3), item(5, 9)]))]);
    assert!(remains_fit_check(&fine));
    assert_eq!(pick_minimax_model_remains_checked(&fine), Some(Some("27 prompts".to_string())));
    let wide = obj(vec![("model_remains", JsonValue::Array(vec![item(i64::MAX, -1)]))]);
    assert!(!remains_fit_check(&wide));
    assert_eq!(pick_minimax_model_remains_checked(&wide), None);
    let sum = obj(vec![("model_remains", JsonValue::Array(vec![item(i64::MAX, 0), item(1, 0)]))]);
    assert!(!remains_fit_check(&sum));
    assert!(reply_usage_snapshot_checked(UsageSource::MiniMax, "minimax", &sum, "now").is_none());
    assert!(reply_usage_snapshot_checked(UsageSource::MiniMax, "minimax", &fine, "now").is_some());
    assert!(remains_fit_check(&obj(vec![])));
}
