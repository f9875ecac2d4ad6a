use orchestrix::bench::llm::LlmProviderId;
use orchestrix::provider_bench_cli::{
    build_llm_provider_configs, business_ops_options, llm_suite_options,
    parse_embedding_provider_list, parse_provider_bench_args, runs_embeddings, ProviderBenchArgs,
    ProviderBenchCli, WorkloadSelection,
};

fn args(v: &[&str]) -> Vec<String> {
    v.iter().map(|s| s.to_string()).collect()
}

fn run(v: &[&str]) -> ProviderBenchCli {
    match parse_provider_bench_args(&args(v)) {
        Ok(ProviderBenchArgs::Run(c)) => c,
        other => panic!("unexpected: {:?}", other),
    }
}

fn error(v: &[&str]) -> String {
    match parse_provider_bench_args(&args(v)) {
        Err(e) => e,
        other => panic!("unexpected: {:?}", other),
    }
}

#[test]
fn provider_cli_defaults() {
    let c = run(&[]);
    assert_eq!(c.workload, WorkloadSelection::All);
    assert_eq!(c.embedding_providers, args(&["gemini", "ollama", "transformersjs", "rust-hf"]));
    assert_eq!(c.llm_providers.len(), 4);
    assert_eq!(c.warmup_iterations, 1);
    assert_eq!(c.measured_iterations, 4);
    assert_eq!(c.embedding_batch_sizes, vec![1, 8, 32]);
    assert_eq!(c.llm_max_tokens, 512);
    assert!(!c.normalize_l2);
    assert_eq!(c.output_path, "benchmark_suite_results.json");
    assert_eq!(c.business_ops_max_turns, 40);
    assert!(!c.business_ops_diagnostics);
}

#[test]
fn provider_cli_reads_flags() {
    let c = run(&[
        "--workload=LLM",
        "--llm-providers",
        "kimi, KIMI,zhipu",
        "--warmup=2",
        "--iterations",
        "7",
        "--batch-sizes=4,4,16",
        "--llm-max-tokens",
        "900",
        "--normalize-l2",
        "--business-ops-scenarios",
        "quick_test, supplier_crisis",
        "--business-ops-max-turns=12",
        "--business-ops-diagnostics",
        "--output",
        "out.json",
    ]);
    assert_eq!(c.workload, WorkloadSelection::Llm);
    assert_eq!(c.llm_providers, vec![LlmProviderId::Kimi, LlmProviderId::Zhipu]);
    assert_eq!(c.warmup_iterations, 2);
    assert_eq!(c.measured_iterations, 7);
    assert_eq!(c.embedding_batch_sizes, vec![4, 16]);
    assert_eq!(c.llm_max_tokens, 900);
    assert!(c.normalize_l2);
    assert_eq!(c.business_ops_scenarios, args(&["quick_test", "supplier_crisis"]));
    assert_eq!(c.business_ops_max_turns, 12);
    assert!(c.business_ops_diagnostics);
    assert_eq!(c.output_path, "out.json");
    assert!(!runs_embeddings(c.workload));
}

#[test]
fn provider_cli_errors() {
    assert_eq!(
        error(&["--workload", "bogus"]),
        "unsupported --workload value 'bogus'. Use all, embeddings, llm, or business-ops"
    );
    assert_eq!(error(&["--warmup", "0"]), "--warmup expects a value greater than 0");
    assert_eq!(error(&["--iterations=x"]), "--iterations expects a positive integer, got 'x'");
    assert_eq!(error(&["--iterations"]), "--iterations requires a value");
    assert_eq!(error(&["--foo"]), "unknown argument: --foo");
    assert_eq!(
        error(&["--llm-providers", " , "]),
        "--llm-providers must include at least one provider"
    );
    assert_eq!(
        error(&["--embedding-providers= ,"]),
        "--embedding-providers must include at least one provider"
    );
    assert_eq!(
        error(&["--llm-model-overrides", "minimax"]),
        "override entry 'minimax' must be provider=value"
    );
    assert_eq!(
        error(&["--business-ops-scenarios", ","]),
        "--business-ops-scenarios must include at least one scenario"
    );
}

#[test]
fn provider_cli_help_wins() {
    assert!(matches!(
        parse_provider_bench_args(&args(&["--warmup", "3", "-h", "--foo"])),
        Ok(ProviderBenchArgs::Help)
    ));
}

#[test]
fn embedding_names_are_deduplicated() {
    assert_eq!(
        parse_embedding_provider_list("ollama, gemini,ollama").unwrap(),
        args(&["ollama", "gemini"])
    );
}

#[test]
fn override_configs_follow_provider_order() {
    let c = run(&[
        "--llm-model-overrides",
        "zhipu=glm-5,minimax=MiniMax-M2.5",
        "--llm-base-url-overrides=zhipu=https://api.z.ai/api/coding/paas/v4",
    ]);
    let configs = build_llm_provider_configs(&c.llm_providers, &c.llm_model_overrides, &c.llm_base_url_overrides);
    assert_eq!(configs.len(), 2);
    assert_eq!(configs[0].provider, LlmProviderId::MiniMax);
    assert_eq!(configs[0].model.as_deref(), Some("MiniMax-M2.5"));
    assert_eq!(configs[0].base_url, None);
    assert_eq!(configs[1].provider, LlmProviderId::Zhipu);
    assert_eq!(configs[1].model.as_deref(), Some("glm-5"));
    assert_eq!(configs[1].base_url.as_deref(), Some("https://api.z.ai/api/coding/paas/v4"));
    assert!(configs.iter().all(|c| c.api_key.is_none() && c.max_tokens.is_none()));
    let b = business_ops_options(&c);
    assert_eq!(b.provider_configs.len(), 2);
    assert_eq!(b.max_prompts_per_turn, 3);
    assert_eq!(b.max_turns, 40);
    let l = llm_suite_options(&c).unwrap();
    assert_eq!(l.max_tokens, 512);
    let e = run(&["--workload", "embeddings"]);
    assert!(llm_suite_options(&e).is_none());
    assert!(runs_embeddings(e.workload));
}
