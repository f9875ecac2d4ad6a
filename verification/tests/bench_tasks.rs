use orchestrix::bench::agent_loop::{after_decision, completion_status, exhausted_error, grow_context_after_call, grow_context_after_calls, grow_context_after_delegation, should_ask_model, LoopKind, TaskProgress};
use orchestrix::bench::llm_answers::{parse_json_payload, parse_json_payload_checked};
use orchestrix::bench::business_day::{
    after_idle_reply, after_reply, after_tool_call, build_day_context, call_description,
    day_continues, needs_closing, sample_of_day, stops_after, tool_call_limit, DayProgress,
};
use orchestrix::bench::llm::LlmTaskCategory;
use orchestrix::bench::llm_tasks::{default_tasks, LlmJudge};

#[test]
fn llm_task_table() {
    let tasks = default_tasks();
    assert_eq!(tasks.len(), 9);
    assert_eq!(tasks[0].id, "arithmetic_accuracy");
    assert!(matches!(tasks[0].judge, LlmJudge::Numeric { expected: 200, tolerance: 0 }));
    assert_eq!(tasks[1].weight, 90);
    match &tasks[2].judge {
        LlmJudge::JsonFields { fields } => {
            assert_eq!(fields.len(), 4);
            assert_eq!(fields[3], ("ticket_id".to_string(), "INC-4821".to_string()));
        }
        other => panic!("unexpected {:?}", other),
    }
    assert_eq!(tasks[4].category, LlmTaskCategory::InstructionFollowing);
    assert_eq!(tasks[4].pass_threshold, 90);
    match &tasks[4].judge {
        LlmJudge::ContainsText { required, max_words } => {
            assert_eq!(required.len(), 2);
            assert_eq!(*max_words, Some(20));
        }
        other => panic!("unexpected {:?}", other),
    }
    assert_eq!(tasks[8].id, "error_handling");
    assert!(tasks[3].user_prompt.contains("vals.sort()"));
}

#[test]
fn business_day_flow() {
    assert_eq!(tool_call_limit(2, 3), 3);
    assert_eq!(tool_call_limit(5, 3), 5);
    let p = DayProgress::start();
    assert!(day_continues(p, 0));
    let p = after_reply(p);
    assert!(!day_continues(p, 0));
    assert!(day_continues(p, 3));
    let o = after_tool_call(p, "set_price", "ok");
    assert!(!o.progress.ended && !o.over_budget);
    let o = after_tool_call(p, "set_price", "exceeded max tool calls per turn");
    assert!(o.progress.ended && o.over_budget);
    let o = after_tool_call(p, "end_turn", "done");
    assert!(o.progress.ended && !o.over_budget);
    let (q, close) = after_idle_reply(p);
    assert!(!close && !q.ended && needs_closing(q));
    let (q, close) = after_idle_reply(after_reply(p));
    assert!(close && q.ended && !needs_closing(q));
    assert!(stops_after(40, 40));
    assert!(!stops_after(39, 40));
}

#[test]
fn business_day_texts() {
    let c = build_day_context("{}", &vec![]);
    assert!(c.starts_with("Current business state:\n{}\n\n## CRITICAL INSTRUCTIONS:\nYou are the COO"));
    assert!(c.ends_with("- end_turn: Finish this turn"));
    assert!(c.contains("'I should restock' \u{2192} you MUST"));
    let c = build_day_context("S", &vec!["a".to_string(), "b".to_string()]);
    assert!(c.starts_with("Current business state:\nS\n\n**Results from your previous actions this turn:**\na\nb\n\n## CRITICAL"));
    assert_eq!(call_description("set_price", "{\"sku\":\"x\"}"), "set_price({\"sku\":\"x\"})");
    assert_eq!(sample_of_day(None, &vec![]), None);
    assert_eq!(sample_of_day(None, &vec!["a()".to_string(), "b()".to_string()]), Some("a(), b()".to_string()));
    assert_eq!(sample_of_day(Some("x".to_string()), &vec!["a()".to_string()]), Some("x".to_string()));
}

#[test]
fn json_parser_handles_fenced_blocks() {
    let payload = "```json\n{\"ticket_id\":\"INC-4821\"}\n```";
    let text = parse_json_payload(payload).expect("json payload should parse");
    let parsed: serde_json::Value = serde_json::from_str(&text).unwrap();
    assert_eq!(parsed["ticket_id"], "INC-4821");
}

#[test]
fn json_payload_candidates() {
    assert_eq!(parse_json_payload("  [1, 2] ").as_deref(), Some("[1, 2]"));
    assert_eq!(parse_json_payload("Answer: {\"a\": 1} done").as_deref(), Some("{\"a\": 1}"));
    assert_eq!(parse_json_payload("no json here"), None);
    assert_eq!(parse_json_payload_checked("} and {"), None);
    assert_eq!(parse_json_payload_checked("x"), Some(None));
}

#[test]
fn agent_loop_contexts() {
    let p = TaskProgress::start();
    assert!(should_ask_model(p, 2, 10, 10));
    assert!(!should_ask_model(p, 2, 11, 10));
    assert!(!should_ask_model(p, 0, 0, 10));
    let p = after_decision(p, 3);
    assert_eq!((p.turns, p.tool_calls), (1, 3));
    let obs = vec![(true, "{\"tool_name\":\"fs.read\"}".to_string()), (false, "{}".to_string()), (true, "B".to_string())];
    assert_eq!(
        grow_context_after_calls("Start", 3, &obs),
        "Start\n\nTool calls executed: 3\n\nTool results:\n{\"tool_name\":\"fs.read\"}\n\nB"
    );
    assert_eq!(grow_context_after_call("S", "fs.list", &vec![]), "S\n\nTool call executed: fs.list\n\nTool results:\n");
    assert!(grow_context_after_delegation("S", LoopKind::Diagram).ends_with("Complete directly or use available tools.]"));
    assert_eq!(completion_status(false), "completed_invalid");
    assert_eq!(exhausted_error(LoopKind::Coding), "Reached maximum turns without completion");
}
