use orchestrix::bench::llm::{LlmProviderConfig, LlmProviderId};
use orchestrix::benchmark_commands::{
    benchmark_model, benchmark_provider_config, cap_provider_max_tokens, diagram_benchmark_options,
    diagram_provider, model_benchmark_plan, resolve_providers, BenchmarkWorkload, RunDiagramBenchmarkRequest,
    RunModelBenchmarkRequest, StoredProviderConfig,
};

fn strings(v: &[&str]) -> Vec<String> {
    v.iter().map(|s| s.to_string()).collect()
}

fn request(workload: BenchmarkWorkload) -> RunModelBenchmarkRequest {
    RunModelBenchmarkRequest {
        run_id: None,
        workload,
        providers: None,
        provider_models: None,
        warmup_iterations: None,
        measured_iterations: None,
        business_ops_max_turns: None,
        business_ops_prompts_per_day: None,
        business_ops_scenarios: None,
    }
}

fn stored() -> StoredProviderConfig {
    StoredProviderConfig {
        api_key: "sk-test".to_string(),
        base_url: Some("https://example.invalid/v1".to_string()),
        default_model: Some("kimi-k2".to_string()),
    }
}

#[test]
fn providers_default_to_all_and_drop_blanks_and_repeats() {
    assert_eq!(
        resolve_providers(&None).unwrap(),
        vec![LlmProviderId::MiniMax, LlmProviderId::Kimi, LlmProviderId::Zhipu, LlmProviderId::Modal]
    );
    assert_eq!(
        resolve_providers(&Some(strings(&[" kimi ", "", "glm", "KIMI"]))).unwrap(),
        vec![LlmProviderId::Kimi, LlmProviderId::Zhipu]
    );
    assert!(resolve_providers(&Some(strings(&["  "]))).unwrap().is_empty());
    assert_eq!(
        resolve_providers(&Some(strings(&["kimi", " openai ", "bogus"]))).unwrap_err(),
        "invalid provider 'openai': unsupported llm provider: openai"
    );
}

#[test]
fn response_caps_follow_the_provider() {
    assert_eq!(cap_provider_max_tokens("minimax", 300_000), 196_608);
    assert_eq!(cap_provider_max_tokens("minimax", 8192), 8192);
    assert_eq!(cap_provider_max_tokens("kimi", 300_000), 300_000);
    assert_eq!(cap_provider_max_tokens("kimi", 0), 1);
}

#[test]
fn benchmark_configs_prefer_the_requested_model() {
    let models = Some(vec![
        ("kimi".to_string(), "  kimi-k2.5 ".to_string()),
        ("zhipu".to_string(), "   ".to_string()),
    ]);
    assert_eq!(benchmark_model(&models, LlmProviderId::Kimi, &Some(stored())).as_deref(), Some("kimi-k2.5"));
    assert_eq!(benchmark_model(&models, LlmProviderId::Zhipu, &Some(stored())).as_deref(), Some("kimi-k2"));
    assert_eq!(benchmark_model(&models, LlmProviderId::Zhipu, &None), None);

    let c = benchmark_provider_config(LlmProviderId::MiniMax, &Some(stored()), Some("m".to_string()), Some(1_000_000), None);
    assert_eq!(c.provider, LlmProviderId::MiniMax);
    assert_eq!(c.api_key.as_deref(), Some("sk-test"));
    assert_eq!(c.base_url.as_deref(), Some("https://example.invalid/v1"));
    assert_eq!(c.model.as_deref(), Some("m"));
    assert_eq!(c.max_tokens, Some(196_608));
    let c = benchmark_provider_config(LlmProviderId::Kimi, &None, None, None, Some(131_072));
    assert_eq!(c.api_key, None);
    assert_eq!(c.base_url, None);
    assert_eq!(c.max_tokens, Some(131_072));
    let c = benchmark_provider_config(LlmProviderId::Kimi, &None, None, None, None);
    assert_eq!(c.max_tokens, Some(4096));
}

#[test]
fn plans_follow_the_workload() {
    let configs = vec![LlmProviderConfig {
        provider: LlmProviderId::Kimi,
        api_key: None,
        model: None,
        base_url: None,
        max_tokens: Some(4096),
    }];
    let mut req = request(BenchmarkWorkload::LlmAndBusinessOps);
    req.measured_iterations = Some(0);
    req.business_ops_scenarios = Some(strings(&["quick_test"]));
    let plan = model_benchmark_plan(&req, &vec![LlmProviderId::Kimi], &configs).unwrap();
    let llm = plan.llm.unwrap();
    assert_eq!(llm.providers, vec![LlmProviderId::Kimi]);
    assert_eq!(llm.warmup_iterations, 1);
    assert_eq!(llm.measured_iterations, 1);
    assert_eq!(llm.max_tokens, 4096);
    assert_eq!(llm.provider_configs.len(), 1);
    let ops = plan.business_ops.unwrap();
    assert_eq!(ops.max_turns, 40);
    assert_eq!(ops.max_prompts_per_turn, 3);
    assert_eq!(ops.scenario_filter, strings(&["quick_test"]));
    assert!(!ops.diagnostics);
    assert!(plan.agentic_coding.is_none());

    let plan = model_benchmark_plan(&request(BenchmarkWorkload::AgenticCoding), &vec![LlmProviderId::Kimi], &configs).unwrap();
    assert!(plan.llm.is_none() && plan.business_ops.is_none());
    assert_eq!(plan.agentic_coding.unwrap().providers, vec![LlmProviderId::MiniMax]);

    assert_eq!(
        model_benchmark_plan(&request(BenchmarkWorkload::Llm), &vec![], &vec![]).unwrap_err(),
        "at least one provider is required"
    );
}

#[test]
fn diagram_runs_default_to_minimax_with_tools() {
    let mut req = RunDiagramBenchmarkRequest {
        run_id: None,
        provider: None,
        provider_model: None,
        max_tokens: None,
        timeout_seconds: None,
        enable_diagram_tools: None,
    };
    assert_eq!(diagram_provider(&req).unwrap(), LlmProviderId::MiniMax);
    let o = diagram_benchmark_options(&req, LlmProviderId::MiniMax, &Some(stored()));
    assert_eq!(o.providers, vec![LlmProviderId::MiniMax]);
    assert_eq!(o.max_tokens, 4096);
    assert_eq!(o.timeout_seconds, 180);
    assert!(o.enable_diagram_tools);
    assert_eq!(o.provider_configs[0].model.as_deref(), Some("kimi-k2"));
    assert_eq!(o.provider_configs[0].max_tokens, None);
    req.provider = Some("bogus".to_string());
    assert_eq!(diagram_provider(&req).unwrap_err(), "invalid provider: unsupported llm provider: bogus");
    req.provider = Some("GLM".to_string());
    assert_eq!(diagram_provider(&req).unwrap(), LlmProviderId::Zhipu);
}
