use orchestrix::json_value::{JsonNumber, JsonValue};
use orchestrix::mcp::McpServerConfig;
use orchestrix::mcp_session::{
    call_error, initialize_params, notification_payload, response_step, server_tools, tool_entries, McpSessionIds,
    ResponseStep,
};

fn s(t: &str) -> JsonValue {
    JsonValue::String(t.to_string())
}

fn num(n: i64) -> JsonValue {
    JsonValue::Number(JsonNumber { text: n.to_string(), int: Some(n) })
}

fn obj(entries: Vec<(&str, JsonValue)>) -> JsonValue {
    JsonValue::Object(entries.into_iter().map(|(k, v)| (k.to_string(), v)).collect())
}

fn field<'a>(v: &'a JsonValue, key: &str) -> Option<&'a JsonValue> {
    match v {
        JsonValue::Object(entries) => entries.iter().find(|(k, _)| k == key).map(|(_, v)| v),
        _ => None,
    }
}

#[test]
fn requests_take_increasing_ids() {
    let mut ids = McpSessionIds::new();
    let (first, msg) = ids.request("initialize", initialize_params());
    let (second, _) = ids.request("tools/list", obj(vec![]));
    assert_eq!((first, second), (1, 2));
    assert!(matches!(field(&msg, "jsonrpc"), Some(JsonValue::String(v)) if v == "2.0"));
    assert!(matches!(field(&msg, "id"), Some(JsonValue::Number(n)) if n.int == Some(1) && n.text == "1"));
    assert!(matches!(field(&msg, "method"), Some(JsonValue::String(m)) if m == "initialize"));
    let params = field(&msg, "params").unwrap();
    assert!(matches!(field(params, "protocolVersion"), Some(JsonValue::String(v)) if v == "2024-11-05"));
    let note = notification_payload("notifications/initialized", obj(vec![]));
    assert!(field(&note, "id").is_none());
}

#[test]
fn replies_are_matched_by_id() {
    let other = obj(vec![("id", num(7)), ("result", s("x"))]);
    assert!(matches!(response_step(&other, 3), ResponseStep::Skip));
    assert!(matches!(response_step(&obj(vec![("method", s("log"))]), 3), ResponseStep::Skip));
    let failed = obj(vec![("id", num(3)), ("error", obj(vec![("code", num(-32601))]))]);
    assert!(matches!(response_step(&failed, 3), ResponseStep::Failed(JsonValue::Object(_))));
    let done = obj(vec![("id", num(3)), ("result", s("ok"))]);
    assert!(matches!(response_step(&done, 3), ResponseStep::Done(JsonValue::String(v)) if v == "ok"));
    let bare = obj(vec![("id", num(3))]);
    assert!(matches!(response_step(&bare, 3), ResponseStep::Done(JsonValue::Object(e)) if e.is_empty()));
    assert_eq!(call_error("tools/call", "{\"code\":1}"), "MCP error calling tools/call: {\"code\":1}");
}

#[test]
fn tools_list_replies_are_read_leniently() {
    let reply = obj(vec![(
        "tools",
        JsonValue::Array(vec![
            obj(vec![("name", s("read")), ("description", s("Read a file")), ("input_schema", obj(vec![]))]),
            obj(vec![("name", s("list"))]),
            obj(vec![("description", s("no name"))]),
            obj(vec![("name", s("bad")), ("description", JsonValue::Null)]),
            JsonValue::Array(vec![s("pos"), s("positional")]),
            s("not a tool"),
        ]),
    )]);
    let tools = server_tools(&reply).unwrap();
    let names: Vec<&str> = tools.iter().map(|t| t.name.as_str()).collect();
    assert_eq!(names, vec!["read", "list", "pos"]);
    assert_eq!(tools[1].description, "");
    assert!(matches!(tools[1].input_schema, JsonValue::Null));
    assert_eq!(tools[2].description, "positional");
    assert_eq!(server_tools(&obj(vec![])).unwrap_err(), "invalid tools/list response");
    assert_eq!(server_tools(&JsonValue::Array(vec![])).unwrap_err(), "invalid tools/list response");

    let server = McpServerConfig {
        id: "fs".to_string(),
        name: "Files".to_string(),
        command: "mcp-fs".to_string(),
        args: vec![],
        env: vec![],
        enabled: true,
    };
    let entries = tool_entries(&server, tools);
    assert_eq!(entries.len(), 3);
    assert_eq!(entries[2].server_id, "fs");
    assert_eq!(entries[2].server_name, "Files");
    assert_eq!(entries[0].tool_name, "read");
    assert_eq!(entries[0].description, "Read a file");
}
