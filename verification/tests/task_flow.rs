use orchestrix::context_usage::{
    choose_message_tokens, context_usage, estimate_message_tokens, estimate_recent_message_tokens,
    estimate_system_prompt_tokens, estimate_text_tokens, estimate_tool_call_tokens,
    estimate_tool_descriptor_tokens, summary_tokens, ContextParts, ToolCallText,
};
use orchestrix::embedding_setup::{recommend_embedding_config, EmbeddingChoice, HardwareFacts, GIB};
use orchestrix::bench::llm::contains_text_counts;
use orchestrix::task_flow::{
    build_continue_prompt, check_follow_up_message, check_follow_up_status, check_review_note,
    check_run_awaits_review, compaction_model, effective_model, feedback_line,
    not_configured_message, recent_messages_newest_first, resolve_run_target, revised_plan_prompt,
};

fn pairs(v: &[(&str, &str)]) -> Vec<(String, String)> {
    v.iter().map(|(a, b)| (a.to_string(), b.to_string())).collect()
}

#[test]
fn token_estimates_round_up_quarters() {
    assert_eq!(estimate_text_tokens(""), 0);
    assert_eq!(estimate_text_tokens("a"), 1);
    assert_eq!(estimate_text_tokens("abcd"), 1);
    assert_eq!(estimate_text_tokens("abcde"), 2);
    assert_eq!(estimate_text_tokens("ééééé"), 2);
    assert_eq!(estimate_message_tokens("user", "hello world"), 1 + 3 + 4);
    let msgs = pairs(&[("user", "abcd"), ("assistant", "abcdefgh"), ("user", "a")]);
    assert_eq!(estimate_recent_message_tokens(&msgs, 2), (3 + 2 + 4) + (1 + 1 + 4));
    assert_eq!(estimate_recent_message_tokens(&msgs, 0), 1 + 1 + 4);
    assert_eq!(estimate_recent_message_tokens(&vec![], 5), 0);
    assert_eq!(estimate_system_prompt_tokens(Some("plan")), 31);
    assert_eq!(estimate_system_prompt_tokens(None), 32);
    let tools = pairs(&[("mcp.fetch", "abcdefgh"), ("fs.read", "abc"), ("mcp.x", "a")]);
    assert_eq!(estimate_tool_descriptor_tokens(&tools), (1, 3));
    let calls = vec![ToolCallText { input_json: "abcd".to_string(), output_json: Some("abcde".to_string()), error: None }];
    assert_eq!(estimate_tool_call_tokens(&calls), 3);
    assert_eq!(summary_tokens(Some(-5)), 0);
    assert_eq!(summary_tokens(Some(12)), 12);
    assert_eq!(choose_message_tokens(true, 10, 3, 50), 3);
    assert_eq!(choose_message_tokens(true, 0, 3, 50), 50);
}

#[test]
fn context_window_split() {
    let parts = ContextParts { system_prompt: 30, tool_definitions: 100, mcp_tools: 20, messages: 500, autocompact: 0, tool_calls: 50 };
    let u = context_usage(1000, parts);
    assert_eq!(u.used_tokens, 700);
    assert_eq!(u.free_tokens, 300);
    assert_eq!(u.segments.len(), 7);
    assert_eq!(u.segments[4].key, "tool_calls");
    assert_eq!(u.segments[4].label, "Tool calls & responses");
    assert_eq!(u.segments[6].tokens, 300);
    let u = context_usage(100, parts);
    assert_eq!(u.free_tokens, 0);
}

#[test]
fn run_target_follows_the_preset() {
    assert_eq!(resolve_run_target(None, None, None), ("minimax".to_string(), None));
    assert_eq!(
        resolve_run_target(Some("KIMI".to_string()), Some("k2".to_string()), Some("  ".to_string())),
        ("kimi".to_string(), Some("k2".to_string()))
    );
    assert_eq!(
        resolve_run_target(Some("kimi".to_string()), Some("k2".to_string()), Some(" zhipu/glm-5 ".to_string())),
        ("zhipu".to_string(), Some("glm-5".to_string()))
    );
    assert_eq!(effective_model(None, Some("d".to_string())), Some("d".to_string()));
    assert_eq!(effective_model(Some("m".to_string()), Some("d".to_string())), Some("m".to_string()));
    assert_eq!(not_configured_message("kimi"), "kimi not configured. Set provider config in settings or env vars.");
    assert_eq!(compaction_model(None, Some("m".to_string())), Some("m".to_string()));
}

#[test]
fn follow_up_checks() {
    assert_eq!(check_follow_up_message("  hi \n"), Ok("hi".to_string()));
    assert_eq!(check_follow_up_message("   "), Err("message cannot be empty".to_string()));
    assert!(check_follow_up_status("failed").is_ok());
    assert_eq!(
        check_follow_up_status("executing"),
        Err("can only send follow-up messages to completed, failed, or cancelled tasks (current status: executing)".to_string())
    );
    let msgs = pairs(&[("user", "a"), ("assistant", "b"), ("user", "c")]);
    assert_eq!(recent_messages_newest_first(&msgs, 2), pairs(&[("user", "c"), ("assistant", "b")]));
    assert_eq!(recent_messages_newest_first(&msgs, 9).len(), 3);
    assert_eq!(
        build_continue_prompt("Do it", &pairs(&[("user", "a"), ("assistant", "b")]), "more"),
        "## Original Task\n\nDo it\n\n## Conversation History\n\nuser: a\n\nassistant: b\n\n## Current Request\n\nmore"
    );
}

#[test]
fn plan_review_notes() {
    assert_eq!(check_review_note(" "), Err("feedback note cannot be empty".to_string()));
    assert_eq!(check_review_note(" ok "), Ok("ok".to_string()));
    assert!(check_run_awaits_review("awaiting_review").is_ok());
    assert_eq!(
        check_run_awaits_review("planning"),
        Err("task is not awaiting review (current status: planning)".to_string())
    );
    assert_eq!(feedback_line("T", "a\nb"), "- T - a b");
    assert!(revised_plan_prompt("P", "n").starts_with("P\n\nPlan review feedback to incorporate before implementation:\n- n\n\n"));
}

#[test]
fn embedding_recommendations() {
    let hw = |gib: u64, gpu: bool, rt: bool| HardwareFacts { ram_bytes: gib * GIB, has_gpu: gpu, physical_cores: 0, gpu_runtime: rt };
    let r = recommend_embedding_config(true, true, hw(2, false, false));
    assert_eq!(r.provider, EmbeddingChoice::Gemini);
    assert!(!r.normalize_l2);
    let r = recommend_embedding_config(false, true, hw(2, true, false));
    assert_eq!(r.provider, EmbeddingChoice::Transformersjs);
    assert_eq!(r.transformersjs_device.as_deref(), Some("cpu"));
    let r = recommend_embedding_config(true, false, hw(6, true, false));
    assert_eq!(r.transformersjs_device.as_deref(), Some("webgpu"));
    assert_eq!(r.notes.len(), 2);
    assert!(r.notes[1].starts_with("Gemini quality mode requested"));
    let r = recommend_embedding_config(false, false, hw(8, false, true));
    assert_eq!(r.provider, EmbeddingChoice::RustHf);
    assert_eq!(r.rust_hf_threads, Some(1));
    assert!(r.notes[1].starts_with("GPU execution providers detected"));
    let r = recommend_embedding_config(false, false, HardwareFacts { ram_bytes: 4 * GIB - 1, has_gpu: true, physical_cores: 4, gpu_runtime: false });
    assert_eq!(r.transformersjs_device.as_deref(), Some("cpu"));
}

#[test]
fn contains_text_penalizes_word_limit_violations() {
    let response = "This sentence includes faster search and review gate and also adds many additional filler words to exceed the requested word limit by a comfortable margin for testing.";
    let required = vec!["faster search".to_string(), "review gate".to_string()];
    let (matched, over_limit) = contains_text_counts(response, &required, Some(20));
    let mut score = matched as f64 / required.len().max(1) as f64;
    if over_limit {
        score *= 0.5;
    }
    assert!((score - 0.5).abs() < f64::EPSILON);
}
