use orchestrix::bench::business_ops::{truncate_text, SimpleRng};
use orchestrix::event_batch::{BusEvent, EventBatcher};
use orchestrix::json_value::JsonValue;
use orchestrix::mcp::{
    content_length_header, find_enabled_server, header_step, legacy_server_config, remove_mcp_server,
    sanitize_id, upsert_mcp_server, HeaderStep, LegacyMcpServerInput, McpServerConfig,
};
use orchestrix::preferences::{
    compact_preferences, default_memory_content, parse_block, project_key, remove_preference,
    replace_block, startup_memory_context, upsert_precheck, upsert_preference_at, PreferenceEntry,
};
use orchestrix::workspace_search::{fuzzy_score, should_skip_dir, split_base_and_needle};

fn server(id: &str, name: &str, enabled: bool) -> McpServerConfig {
    McpServerConfig {
        id: id.to_string(),
        name: name.to_string(),
        command: "run".to_string(),
        args: vec![],
        env: vec![],
        enabled,
    }
}

fn pref(key: &str, at: &str) -> PreferenceEntry {
    PreferenceEntry { key: key.to_string(), value: "v".to_string(), category: None, updated_at: at.to_string() }
}

fn event(category: &str, event_type: &str, seq: i64) -> BusEvent {
    BusEvent {
        id: seq.to_string(),
        run_id: None,
        seq,
        category: category.to_string(),
        event_type: event_type.to_string(),
        payload: JsonValue::Null,
        created_at: String::new(),
    }
}

#[test]
fn servers_are_kept_sorted_and_replaced() {
    let list = upsert_mcp_server(&vec![], server("b", "beta", true));
    let list = upsert_mcp_server(&list, server("a", "Alpha", true));
    let list = upsert_mcp_server(&list, server("b", "gamma", false));
    let names: Vec<String> = list.iter().map(|s| s.name.clone()).collect();
    assert_eq!(names, vec!["Alpha", "gamma"]);
    assert_eq!(
        find_enabled_server(&list, "b").unwrap_err(),
        "mcp server not found or disabled: b"
    );
    assert_eq!(find_enabled_server(&list, "a").unwrap().name, "Alpha");
    assert!(remove_mcp_server(&list, "zzz").is_none());
    assert_eq!(remove_mcp_server(&list, "a").unwrap().len(), 1);
}

#[test]
fn server_ids_and_legacy_entries() {
    assert_eq!(sanitize_id("  My Server!! v2 "), "my-server-v2");
    assert_eq!(sanitize_id("--"), "");
    let input = |id: Option<&str>, name: &str, command: &str| LegacyMcpServerInput {
        id: id.map(|s| s.to_string()),
        name: name.to_string(),
        command: command.to_string(),
        args: None,
        env: None,
        enabled: None,
    };
    assert_eq!(legacy_server_config(input(None, " ", "x")).unwrap_err(), "name is required");
    assert_eq!(legacy_server_config(input(None, "n", " ")).unwrap_err(), "command is required");
    assert_eq!(legacy_server_config(input(None, "!!", "x")).unwrap_err(), "could not derive valid id");
    let c = legacy_server_config(input(Some("***"), " Git Hub ", " npx ")).unwrap();
    assert_eq!(c.id, "git-hub");
    assert_eq!(c.name, "Git Hub");
    assert_eq!(c.command, "npx");
    assert!(c.enabled);
    let c = legacy_server_config(input(Some("Fs_Tools"), "x", "y")).unwrap();
    assert_eq!(c.id, "fs-tools");
}

#[test]
fn message_framing() {
    assert_eq!(content_length_header(17), "Content-Length: 17\r\n\r\n");
    assert!(matches!(header_step(0, "Content-Length: 42\r\n"), HeaderStep::Continue(42)));
    assert!(matches!(header_step(42, "\r\n"), HeaderStep::Body(42)));
    assert!(matches!(header_step(0, "\r\n"), HeaderStep::Fail(_)));
    assert!(matches!(header_step(7, ""), HeaderStep::Fail(_)));
}

#[test]
fn preferences_upsert_and_remove() {
    assert_eq!(upsert_precheck(false, "k").unwrap_err(), "auto memory is disabled");
    assert_eq!(upsert_precheck(true, "  ").unwrap_err(), "preference key cannot be empty");
    assert_eq!(upsert_precheck(true, " k ").unwrap(), "k");
    let prefs = vec![pref("a", "2024-01-01T00:00:00Z"), pref("b", "2024-01-02T00:00:00Z")];
    let (list, entry) = upsert_preference_at(&prefs, "a", "new", Some(" style "), "2024-01-03T00:00:00Z");
    assert_eq!(entry.category.as_deref(), Some("style"));
    assert_eq!(list.len(), 2);
    assert_eq!(list[0].key, "a");
    assert_eq!(list[0].value, "new");
    assert_eq!(list[1].key, "b");
    assert!(remove_preference(&list, "zzz").is_none());
    let rest = remove_preference(&list, "a").unwrap();
    assert_eq!(rest.len(), 1);
    assert_eq!(rest[0].key, "b");
    let many: Vec<PreferenceEntry> = (0..105).map(|i| pref(&format!("k{i}"), &format!("2024-01-01T00:00:{:02}Z", i % 60))).collect();
    let (kept, dropped) = compact_preferences(&many);
    assert_eq!(kept.len(), 100);
    assert_eq!(dropped, 5);
}

#[test]
fn memory_file_blocks() {
    let d = default_memory_content();
    assert_eq!(parse_block(&d).as_deref(), Some("{\n  \"preferences\": []\n}"));
    let r = replace_block(&d, "X");
    assert_eq!(parse_block(&r).as_deref(), Some("X"));
    let r = replace_block("# Notes", "Y");
    assert_eq!(r, "# Notes\n\n## User Preferences\n\n<!-- PREFERENCES_START -->\nY\n<!-- PREFERENCES_END -->\n");
    assert_eq!(parse_block("no block"), None);
    let long: String = (0..250).map(|i| format!("line{i}\n")).collect();
    let ctx = startup_memory_context(&long);
    assert_eq!(ctx.lines().count(), 200);
    assert!(ctx.ends_with("line199"));
    assert_eq!(project_key("/home/me/my-proj"), "_home_me_my_proj");
}

#[test]
fn event_batches_keep_order() {
    let mut b = EventBatcher::new();
    assert!(b.on_event(event("log", "x", 1)).is_empty());
    assert!(b.on_event(event("tool", "y", 2)).is_empty());
    let out = b.on_event(event("task", "task.created", 3));
    assert_eq!(out.len(), 2);
    assert_eq!(out[0].iter().map(|e| e.seq).collect::<Vec<_>>(), vec![1, 2]);
    assert_eq!(out[1][0].seq, 3);
    let out = b.on_event(event("agent", "agent.step_started", 4));
    assert_eq!(out.len(), 1);
    for i in 0..49 {
        assert!(b.on_event(event("log", "z", 10 + i)).is_empty());
    }
    let out = b.on_event(event("log", "z", 99));
    assert_eq!(out.len(), 1);
    assert_eq!(out[0].len(), 50);
    assert!(b.on_tick().is_none());
    b.on_event(event("log", "z", 100));
    assert_eq!(b.on_close().unwrap().len(), 1);
}

#[test]
fn fuzzy_scores() {
    assert_eq!(fuzzy_score("  ", "anything"), 0);
    assert_eq!(fuzzy_score("ReadMe", "readme"), 400);
    assert_eq!(fuzzy_score("xyz", "readme"), -1);
    assert_eq!(fuzzy_score("src/ma", "src/map map src"), 355);
    assert!(should_skip_dir("node_modules", true));
    assert!(!should_skip_dir("node_modules", false));
    assert_eq!(split_base_and_needle("./src/lib/"), ("src".to_string(), "lib".to_string()));
    assert_eq!(split_base_and_needle("src/lib/ma"), ("src/lib".to_string(), "ma".to_string()));
    assert_eq!(split_base_and_needle(""), (".".to_string(), String::new()));
}

#[test]
fn rng_and_truncation() {
    let mut a = SimpleRng::new(42);
    let mut b = SimpleRng::new(42);
    let xs: Vec<u32> = (0..5).map(|_| a.next()).collect();
    let ys: Vec<u32> = (0..5).map(|_| b.next()).collect();
    assert_eq!(xs, ys);
    assert_eq!(truncate_text("short", 10), "short");
}

#[test]
fn upsert_keeps_server_ids_distinct() {
    let mut list = vec![];
    for (id, name) in [("b", "beta"), ("a", "alpha"), ("b", "Bravo"), ("c", "alpha"), ("a", "zulu")] {
        list = upsert_mcp_server(&list, server(id, name, true));
    }
    let ids: Vec<String> = list.iter().map(|s| s.id.clone()).collect();
    assert_eq!(ids, vec!["c", "b", "a"]);
    let names: Vec<String> = list.iter().map(|s| s.name.clone()).collect();
    assert_eq!(names, vec!["alpha", "Bravo", "zulu"]);
}
