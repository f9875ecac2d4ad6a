use vstd::prelude::*;

pub mod agent_preset_commands;
pub mod agent_presets;
pub mod agent_skills;
pub mod bench;
pub mod chatgpt_auth;
pub mod benchmark_commands;
pub mod cli;
pub mod coding_bench_cli;
pub mod context_usage;
pub mod embedding_setup;
pub mod event_batch;
pub mod json_value;
pub mod listing;
pub mod markdown;
pub mod mcp;
pub mod mcp_servers;
pub mod mcp_session;
pub mod order;
pub mod path_scope;
pub mod preferences;
pub mod prompt_references;
pub mod provider;
pub mod provider_bench_cli;
pub mod provider_usage;
pub mod reference_ranking;
pub mod run_context;
pub mod skills;
pub mod task_flow;
pub mod task_links;
pub mod text;
pub mod tool;
pub mod workspace_search;
pub mod workspace_skills;

verus! {
} // verus!
