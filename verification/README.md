# orchestrix

The rules of the Orchestrix agent manager as a Verus library: every
function in `src/` carries a contract over a mathematical model of its data,
and Verus proves the code against it.

## Layout

- `src/` — the verified library.
  - Text and ordering helpers: `text`, `order`, `listing`, `markdown`,
    `json_value`, `path_scope`.
  - Workspace context: `workspace_skills`, `agent_presets`, `skills`,
    `prompt_references`, `reference_ranking`, `workspace_search`.
  - Settings and memory: `preferences`, `mcp`, `mcp_servers`, `mcp_session`,
    `chatgpt_auth`, `embedding_setup`, `provider`, `provider_usage`.
  - Task flow: `task_flow`, `task_links`, `run_context`, `event_batch`,
    `context_usage`.
  - Benchmarks: `bench/` (task tables, the diagram state, the business
    simulation's rules, the agent loop's decisions) and the command-line
    parsers `cli`, `coding_bench_cli`, `provider_bench_cli`,
    `benchmark_commands`.
- `tests/` — tests on concrete values, one file per area.
- `app/` — the command-line program around the library: file and network
  I/O, the clock, JSON (de)serialization, and the business simulation, which
  computes in floating point.

Laws that span several calls are public proof functions named `law_*`
beside the functions they speak of, for instance
`bench::diagram_state::law_batch_all_or_nothing`,
`prompt_references::law_outside_paths_add_nothing` and
`mcp::law_upsert_keeps_ids_distinct`.
