//! The command line of the provider benchmark program: which workloads to
//! run, on which providers, how often, and where the report goes.
//!
//! Reading the arguments, running the benchmarks and writing the report are
//! the caller's business; this module turns the arguments into options.
use vstd::prelude::*;

use crate::bench::business_ops::BusinessOpsBenchOptions;
use crate::bench::llm::{LlmBenchOptions, LlmProviderConfig, LlmProviderId};
use crate::cli::{
    batch_sizes_of, list_items, list_items_vec, names_or, overrides_from, ov_get, ov_views,
    parse_batch_sizes, parse_positive_u32, parse_positive_usize, parse_provider_list,
    parse_provider_overrides, parse_scenario_list, positive_of, provider_list_of,
};
use crate::coding_bench_cli::{
    flag_value, is_arg, ov_lookup, requires_value, value_flag, FlagHit, FlagMatch,
};
use crate::text::{
    append_str, chars_of, copy_string, lit, lower, lower_vec, seq_eq, string_of, strings_of, trim,
    trimmed, views, views_v, opt_view, copy_strings,
};

verus! {

// ---------------------------------------------------------------------------
// Workloads
// ---------------------------------------------------------------------------

/// Which benchmarks a run covers.
#[derive(Debug, Clone, Copy, PartialEq, Eq, Structural)]
pub enum WorkloadSelection {
    All,
    Embeddings,
    Llm,
    BusinessOps,
}

/// The workload a `--workload` value names, ignoring surrounding space and
/// ASCII case.
pub open spec fn workload_of(value: Seq<char>) -> Option<WorkloadSelection> {
    let n = lower(trim(value));
    if n == "all"@ {
        Some(WorkloadSelection::All)
    } else if n == "embeddings"@ {
        Some(WorkloadSelection::Embeddings)
    } else if n == "llm"@ {
        Some(WorkloadSelection::Llm)
    } else if n == "business-ops"@ {
        Some(WorkloadSelection::BusinessOps)
    } else {
        None
    }
}

pub open spec fn workload_error(value: Seq<char>) -> Seq<char> {
    "unsupported --workload value '"@ + value + "'. Use all, embeddings, llm, or business-ops"@
}

pub open spec fn workload_result(value: Seq<char>) -> Result<WorkloadSelection, Seq<char>> {
    match workload_of(value) {
        Some(w) => Ok(w),
        None => Err(workload_error(value)),
    }
}

impl WorkloadSelection {
    pub fn from_flag(value: &str) -> (r: Result<WorkloadSelection, String>)
        ensures
            match workload_result(value@) {
                Ok(w) => r == Ok::<WorkloadSelection, String>(w),
                Err(m) => r matches Err(e) && e@ == m,
            },
    {
        let n = lower_vec(&trimmed(value));
        if seq_eq(&n, &chars_of("all")) {
            Ok(WorkloadSelection::All)
        } else if seq_eq(&n, &chars_of("embeddings")) {
            Ok(WorkloadSelection::Embeddings)
        } else if seq_eq(&n, &chars_of("llm")) {
            Ok(WorkloadSelection::Llm)
        } else if seq_eq(&n, &chars_of("business-ops")) {
            Ok(WorkloadSelection::BusinessOps)
        } else {
            let mut m = chars_of("unsupported --workload value '");
            append_str(&mut m, value);
            append_str(&mut m, "'. Use all, embeddings, llm, or business-ops");
            Err(string_of(&m))
        }
    }
}

// ---------------------------------------------------------------------------
// Embedding providers
// ---------------------------------------------------------------------------

/// The items in order, each once.
pub open spec fn distinct_names(items: Seq<Seq<char>>) -> Seq<Seq<char>>
    decreases items.len(),
{
    if items.len() == 0 {
        items
    } else {
        let d = distinct_names(items.drop_last());
        if d.contains(items.last()) {
            d
        } else {
            d.push(items.last())
        }
    }
}

/// The embedding providers of an `--embedding-providers` value: at least
/// one, each once, in order of first mention.  The names are kept as given;
/// the embeddings client decides which ones it serves.
pub open spec fn embedding_list_of(value: Seq<char>) -> Result<Seq<Seq<char>>, Seq<char>> {
    let d = distinct_names(list_items(value));
    if d.len() == 0 {
        Err("--embedding-providers must include at least one provider"@)
    } else {
        Ok(d)
    }
}

fn contains_name(v: &Vec<String>, s: &Vec<char>) -> (r: bool)
    ensures
        r == views(v@).contains(s@),
{
    let mut i: usize = 0;
    while i < v.len()
        invariant
            i <= v.len(),
            forall|k: int| 0 <= k < i ==> views(v@)[k] != s@,
        decreases v.len() - i,
    {
        if seq_eq(&chars_of(v[i].as_str()), s) {
            assert(views(v@)[i as int] == s@);
            return true;
        }
        i += 1;
    }
    false
}

pub fn parse_embedding_provider_list(value: &str) -> (r: Result<Vec<String>, String>)
    ensures
        match embedding_list_of(value@) {
            Ok(v) => r matches Ok(x) && views(x@) == v,
            Err(m) => r matches Err(e) && e@ == m,
        },
{
    let items = list_items_vec(value);
    let ghost iv = views_v(items@);
    let mut out: Vec<String> = Vec::new();
    let mut i: usize = 0;
    assert(iv.take(0) =~= Seq::<Seq<char>>::empty());
    assert(views(out@) =~= Seq::<Seq<char>>::empty());
    while i < items.len()
        invariant
            i <= items.len(),
            iv == views_v(items@),
            views(out@) == distinct_names(iv.take(i as int)),
        decreases items.len() - i,
    {
        assert(iv.take(i + 1).drop_last() =~= iv.take(i as int));
        assert(iv.take(i + 1).last() == items@[i as int]@);
        if !contains_name(&out, &items[i]) {
            let ghost prev = out@;
            out.push(string_of(&items[i]));
            assert(views(out@) =~= views(prev).push(items@[i as int]@));
        }
        i += 1;
    }
    assert(iv.take(items.len() as int) =~= iv);
    if out.len() == 0 {
        return Err(lit("--embedding-providers must include at least one provider"));
    }
    Ok(out)
}

// ---------------------------------------------------------------------------
// Options
// ---------------------------------------------------------------------------

#[derive(Debug)]
pub struct ProviderBenchCli {
    pub workload: WorkloadSelection,
    pub embedding_providers: Vec<String>,
    pub llm_providers: Vec<LlmProviderId>,
    pub warmup_iterations: usize,
    pub measured_iterations: usize,
    pub embedding_batch_sizes: Vec<usize>,
    pub llm_max_tokens: u32,
    pub normalize_l2: bool,
    pub output_path: String,
    pub llm_model_overrides: Vec<(LlmProviderId, String)>,
    pub llm_base_url_overrides: Vec<(LlmProviderId, String)>,
    pub business_ops_scenarios: Vec<String>,
    pub business_ops_max_turns: usize,
    pub business_ops_diagnostics: bool,
}

#[verifier::ext_equal]
pub struct ProviderCliView {
    pub workload: WorkloadSelection,
    pub embedding_providers: Seq<Seq<char>>,
    pub llm_providers: Seq<LlmProviderId>,
    pub warmup_iterations: usize,
    pub measured_iterations: usize,
    pub embedding_batch_sizes: Seq<usize>,
    pub llm_max_tokens: u32,
    pub normalize_l2: bool,
    pub output_path: Seq<char>,
    pub llm_model_overrides: Seq<(LlmProviderId, Seq<char>)>,
    pub llm_base_url_overrides: Seq<(LlmProviderId, Seq<char>)>,
    pub business_ops_scenarios: Seq<Seq<char>>,
    pub business_ops_max_turns: usize,
    pub business_ops_diagnostics: bool,
}

impl View for ProviderBenchCli {
    type V = ProviderCliView;

    open spec fn view(&self) -> ProviderCliView {
        ProviderCliView {
            workload: self.workload,
            embedding_providers: views(self.embedding_providers@),
            llm_providers: self.llm_providers@,
            warmup_iterations: self.warmup_iterations,
            measured_iterations: self.measured_iterations,
            embedding_batch_sizes: self.embedding_batch_sizes@,
            llm_max_tokens: self.llm_max_tokens,
            normalize_l2: self.normalize_l2,
            output_path: self.output_path@,
            llm_model_overrides: ov_views(self.llm_model_overrides@),
            llm_base_url_overrides: ov_views(self.llm_base_url_overrides@),
            business_ops_scenarios: views(self.business_ops_scenarios@),
            business_ops_max_turns: self.business_ops_max_turns,
            business_ops_diagnostics: self.business_ops_diagnostics,
        }
    }
}

/// Every workload on every provider; one warm-up and four measured
/// iterations; batches of 1, 8 and 32; 512 output tokens; 40 business turns.
pub open spec fn provider_cli_defaults() -> ProviderCliView {
    ProviderCliView {
        workload: WorkloadSelection::All,
        embedding_providers: seq!["gemini"@, "ollama"@, "transformersjs"@, "rust-hf"@],
        llm_providers: seq![LlmProviderId::MiniMax, LlmProviderId::Kimi, LlmProviderId::Zhipu, LlmProviderId::Modal],
        warmup_iterations: 1,
        measured_iterations: 4,
        embedding_batch_sizes: seq![1usize, 8usize, 32usize],
        llm_max_tokens: 512,
        normalize_l2: false,
        output_path: "benchmark_suite_results.json"@,
        llm_model_overrides: Seq::empty(),
        llm_base_url_overrides: Seq::empty(),
        business_ops_scenarios: Seq::empty(),
        business_ops_max_turns: 40,
        business_ops_diagnostics: false,
    }
}

impl ProviderBenchCli {
    pub fn defaults() -> (r: ProviderBenchCli)
        ensures
            r@ == provider_cli_defaults(),
    {
        let embedding_providers = vec![lit("gemini"), lit("ollama"), lit("transformersjs"), lit("rust-hf")];
        let r = ProviderBenchCli {
            workload: WorkloadSelection::All,
            embedding_providers,
            llm_providers: LlmProviderId::all(),
            warmup_iterations: 1,
            measured_iterations: 4,
            embedding_batch_sizes: vec![1, 8, 32],
            llm_max_tokens: 512,
            normalize_l2: false,
            output_path: lit("benchmark_suite_results.json"),
            llm_model_overrides: Vec::new(),
            llm_base_url_overrides: Vec::new(),
            business_ops_scenarios: Vec::new(),
            business_ops_max_turns: 40,
            business_ops_diagnostics: false,
        };
        assert(r@.embedding_providers =~= provider_cli_defaults().embedding_providers);
        assert(r@.business_ops_scenarios =~= Seq::<Seq<char>>::empty());
        assert(r@.llm_model_overrides =~= Seq::<(LlmProviderId, Seq<char>)>::empty());
        assert(r@.llm_base_url_overrides =~= Seq::<(LlmProviderId, Seq<char>)>::empty());
        assert(r@ =~= provider_cli_defaults());
        r
    }
}

// ---------------------------------------------------------------------------
// The argument list
// ---------------------------------------------------------------------------

/// What one argument does: ask for help, fail, or give the next options and
/// the number of arguments used.
pub enum PStep {
    Help,
    Fail(Seq<char>),
    Next(ProviderCliView, nat),
}

pub open spec fn fv(f: FlagMatch) -> Seq<char> {
    match f {
        FlagMatch::Value(v, _) => v,
        _ => Seq::<char>::empty(),
    }
}

pub open spec fn used(f: FlagMatch) -> nat {
    match f {
        FlagMatch::Value(_, n) => n,
        _ => 0,
    }
}

pub open spec fn on_value(f: FlagMatch, name: Seq<char>, res: Result<ProviderCliView, Seq<char>>) -> PStep {
    match f {
        FlagMatch::Missing => PStep::Fail(name + " requires a value"@),
        _ => match res {
            Ok(s) => PStep::Next(s, used(f)),
            Err(m) => PStep::Fail(m),
        },
    }
}

pub open spec fn set_workload(st: ProviderCliView, r: Result<WorkloadSelection, Seq<char>>) -> Result<ProviderCliView, Seq<char>> {
    match r {
        Ok(w) => Ok(ProviderCliView { workload: w, ..st }),
        Err(m) => Err(m),
    }
}

pub open spec fn set_embedding(st: ProviderCliView, r: Result<Seq<Seq<char>>, Seq<char>>) -> Result<ProviderCliView, Seq<char>> {
    match r {
        Ok(v) => Ok(ProviderCliView { embedding_providers: v, ..st }),
        Err(m) => Err(m),
    }
}

pub open spec fn set_llm(st: ProviderCliView, r: Result<Seq<LlmProviderId>, Seq<char>>) -> Result<ProviderCliView, Seq<char>> {
    match r {
        Ok(v) => Ok(ProviderCliView { llm_providers: v, ..st }),
        Err(m) => Err(m),
    }
}

pub open spec fn set_warmup(st: ProviderCliView, r: Result<nat, Seq<char>>) -> Result<ProviderCliView, Seq<char>> {
    match r {
        Ok(n) => Ok(ProviderCliView { warmup_iterations: n as usize, ..st }),
        Err(m) => Err(m),
    }
}

pub open spec fn set_iterations(st: ProviderCliView, r: Result<nat, Seq<char>>) -> Result<ProviderCliView, Seq<char>> {
    match r {
        Ok(n) => Ok(ProviderCliView { measured_iterations: n as usize, ..st }),
        Err(m) => Err(m),
    }
}

pub open spec fn set_batch(st: ProviderCliView, r: Result<Seq<usize>, Seq<char>>) -> Result<ProviderCliView, Seq<char>> {
    match r {
        Ok(v) => Ok(ProviderCliView { embedding_batch_sizes: v, ..st }),
        Err(m) => Err(m),
    }
}

pub open spec fn set_tokens(st: ProviderCliView, r: Result<nat, Seq<char>>) -> Result<ProviderCliView, Seq<char>> {
    match r {
        Ok(n) => Ok(ProviderCliView { llm_max_tokens: n as u32, ..st }),
        Err(m) => Err(m),
    }
}

pub open spec fn set_models(st: ProviderCliView, r: Result<Seq<(LlmProviderId, Seq<char>)>, Seq<char>>) -> Result<ProviderCliView, Seq<char>> {
    match r {
        Ok(v) => Ok(ProviderCliView { llm_model_overrides: v, ..st }),
        Err(m) => Err(m),
    }
}

pub open spec fn set_urls(st: ProviderCliView, r: Result<Seq<(LlmProviderId, Seq<char>)>, Seq<char>>) -> Result<ProviderCliView, Seq<char>> {
    match r {
        Ok(v) => Ok(ProviderCliView { llm_base_url_overrides: v, ..st }),
        Err(m) => Err(m),
    }
}

pub open spec fn set_scenarios(st: ProviderCliView, r: Result<Seq<Seq<char>>, Seq<char>>) -> Result<ProviderCliView, Seq<char>> {
    match r {
        Ok(v) => Ok(ProviderCliView { business_ops_scenarios: v, ..st }),
        Err(m) => Err(m),
    }
}

pub open spec fn set_turns(st: ProviderCliView, r: Result<nat, Seq<char>>) -> Result<ProviderCliView, Seq<char>> {
    match r {
        Ok(n) => Ok(ProviderCliView { business_ops_max_turns: n as usize, ..st }),
        Err(m) => Err(m),
    }
}

/// The effect of argument `i`, flags tried in the program's order.
pub open spec fn provider_cli_step(args: Seq<Seq<char>>, i: int, st: ProviderCliView) -> PStep {
    let a = args[i];
    let f_workload = value_flag(args, i, "--workload"@);
    let f_emb = value_flag(args, i, "--embedding-providers"@);
    let f_llm = value_flag(args, i, "--llm-providers"@);
    let f_warmup = value_flag(args, i, "--warmup"@);
    let f_iters = value_flag(args, i, "--iterations"@);
    let f_batch = value_flag(args, i, "--batch-sizes"@);
    let f_tokens = value_flag(args, i, "--llm-max-tokens"@);
    let f_models = value_flag(args, i, "--llm-model-overrides"@);
    let f_urls = value_flag(args, i, "--llm-base-url-overrides"@);
    let f_scen = value_flag(args, i, "--business-ops-scenarios"@);
    let f_turns = value_flag(args, i, "--business-ops-max-turns"@);
    let f_output = value_flag(args, i, "--output"@);
    if a == "--help"@ || a == "-h"@ {
        PStep::Help
    } else if !(f_workload is NoMatch) {
        on_value(f_workload, "--workload"@, set_workload(st, workload_result(fv(f_workload))))
    } else if !(f_emb is NoMatch) {
        on_value(f_emb, "--embedding-providers"@, set_embedding(st, embedding_list_of(fv(f_emb))))
    } else if !(f_llm is NoMatch) {
        on_value(f_llm, "--llm-providers"@, set_llm(st, provider_list_of(fv(f_llm), "--llm-providers must include at least one provider"@)))
    } else if !(f_warmup is NoMatch) {
        on_value(f_warmup, "--warmup"@, set_warmup(st, positive_of(fv(f_warmup), "--warmup"@, usize::MAX as nat)))
    } else if !(f_iters is NoMatch) {
        on_value(f_iters, "--iterations"@, set_iterations(st, positive_of(fv(f_iters), "--iterations"@, usize::MAX as nat)))
    } else if !(f_batch is NoMatch) {
        on_value(f_batch, "--batch-sizes"@, set_batch(st, batch_sizes_of(fv(f_batch))))
    } else if !(f_tokens is NoMatch) {
        on_value(f_tokens, "--llm-max-tokens"@, set_tokens(st, positive_of(fv(f_tokens), "--llm-max-tokens"@, u32::MAX as nat)))
    } else if !(f_models is NoMatch) {
        on_value(f_models, "--llm-model-overrides"@, set_models(st, overrides_from(list_items(fv(f_models)))))
    } else if !(f_urls is NoMatch) {
        on_value(f_urls, "--llm-base-url-overrides"@, set_urls(st, overrides_from(list_items(fv(f_urls)))))
    } else if a == "--normalize-l2"@ {
        PStep::Next(ProviderCliView { normalize_l2: true, ..st }, 1)
    } else if !(f_scen is NoMatch) {
        on_value(f_scen, "--business-ops-scenarios"@, set_scenarios(st, names_or(fv(f_scen), "--business-ops-scenarios must include at least one scenario"@)))
    } else if !(f_turns is NoMatch) {
        on_value(f_turns, "--business-ops-max-turns"@, set_turns(st, positive_of(fv(f_turns), "--business-ops-max-turns"@, usize::MAX as nat)))
    } else if a == "--business-ops-diagnostics"@ {
        PStep::Next(ProviderCliView { business_ops_diagnostics: true, ..st }, 1)
    } else if !(f_output is NoMatch) {
        on_value(f_output, "--output"@, Ok(ProviderCliView { output_path: fv(f_output), ..st }))
    } else {
        PStep::Fail("unknown argument: "@ + a)
    }
}
/// What the arguments from `i` on make of the options `st`.
pub enum ProviderArgsResult {
    Help,
    Fail(Seq<char>),
    Done(ProviderCliView),
}

pub open spec fn provider_parse_from(args: Seq<Seq<char>>, i: int, st: ProviderCliView) -> ProviderArgsResult
    decreases args.len() - i,
{
    if i < 0 || i >= args.len() {
        ProviderArgsResult::Done(st)
    } else {
        match provider_cli_step(args, i, st) {
            PStep::Help => ProviderArgsResult::Help,
            PStep::Fail(m) => ProviderArgsResult::Fail(m),
            PStep::Next(s, n) => if n >= 1 {
                provider_parse_from(args, i + n, s)
            } else {
                ProviderArgsResult::Fail(Seq::<char>::empty())
            },
        }
    }
}

/// The options the arguments give, or a request for help.
#[derive(Debug)]
pub enum ProviderBenchArgs {
    Help,
    Run(ProviderBenchCli),
}

/// Reads the program's arguments (without the program name).
pub fn parse_provider_bench_args(args: &Vec<String>) -> (r: Result<ProviderBenchArgs, String>)
    ensures
        match provider_parse_from(views(args@), 0, provider_cli_defaults()) {
            ProviderArgsResult::Help => r matches Ok(ProviderBenchArgs::Help),
            ProviderArgsResult::Fail(m) => r matches Err(e) && e@ == m,
            ProviderArgsResult::Done(v) => r matches Ok(ProviderBenchArgs::Run(c)) && c@ == v,
        },
{
    let ghost av = views(args@);
    let mut cli = ProviderBenchCli::defaults();
    let mut i: usize = 0;
    while i < args.len()
        invariant
            i <= args.len(),
            av == views(args@),
            provider_parse_from(av, 0, provider_cli_defaults()) == provider_parse_from(av, i as int, cli@),
        decreases args.len() - i,
    {
        let ghost st0 = cli@;
        let ghost i0 = i as int;
        let a = chars_of(args[i].as_str());
        assert(av[i0] == a@);
        if is_arg(&a, "--help") || is_arg(&a, "-h") {
            assert(provider_cli_step(av, i0, st0) == PStep::Help);
            return Ok(ProviderBenchArgs::Help);
        }
        match flag_value(args, i, "--workload") {
            FlagHit::Missing => {
                assert(provider_cli_step(av, i0, st0) == PStep::Fail("--workload"@ + " requires a value"@));
                return Err(requires_value("--workload"));
            },
            FlagHit::Value(v, n) => {
                match WorkloadSelection::from_flag(v.as_str()) {
                    Ok(x) => {
                        cli.workload = x;
                        assert(provider_cli_step(av, i0, st0) == PStep::Next(cli@, n as nat));
                        i += n;
                        continue;
                    },
                    Err(e) => {
                        assert(provider_cli_step(av, i0, st0) == PStep::Fail(e@));
                        return Err(e);
                    },
                }
            },
            FlagHit::NoMatch => {},
        }
        match flag_value(args, i, "--embedding-providers") {
            FlagHit::Missing => {
                assert(provider_cli_step(av, i0, st0) == PStep::Fail("--embedding-providers"@ + " requires a value"@));
                return Err(requires_value("--embedding-providers"));
            },
            FlagHit::Value(v, n) => {
                match parse_embedding_provider_list(v.as_str()) {
                    Ok(x) => {
                        cli.embedding_providers = x;
                        assert(provider_cli_step(av, i0, st0) == PStep::Next(cli@, n as nat));
                        i += n;
                        continue;
                    },
                    Err(e) => {
                        assert(provider_cli_step(av, i0, st0) == PStep::Fail(e@));
                        return Err(e);
                    },
                }
            },
            FlagHit::NoMatch => {},
        }
        match flag_value(args, i, "--llm-providers") {
            FlagHit::Missing => {
                assert(provider_cli_step(av, i0, st0) == PStep::Fail("--llm-providers"@ + " requires a value"@));
                return Err(requires_value("--llm-providers"));
            },
            FlagHit::Value(v, n) => {
                match parse_provider_list(v.as_str(), "--llm-providers must include at least one provider") {
                    Ok(x) => {
                        cli.llm_providers = x;
                        assert(provider_cli_step(av, i0, st0) == PStep::Next(cli@, n as nat));
                        i += n;
                        continue;
                    },
                    Err(e) => {
                        assert(provider_cli_step(av, i0, st0) == PStep::Fail(e@));
                        return Err(e);
                    },
                }
            },
            FlagHit::NoMatch => {},
        }
        match flag_value(args, i, "--warmup") {
            FlagHit::Missing => {
                assert(provider_cli_step(av, i0, st0) == PStep::Fail("--warmup"@ + " requires a value"@));
                return Err(requires_value("--warmup"));
            },
            FlagHit::Value(v, n) => {
                match parse_positive_usize(v.as_str(), "--warmup") {
                    Ok(x) => {
                        cli.warmup_iterations = x;
                        assert(provider_cli_step(av, i0, st0) == PStep::Next(cli@, n as nat));
                        i += n;
                        continue;
                    },
                    Err(e) => {
                        assert(provider_cli_step(av, i0, st0) == PStep::Fail(e@));
                        return Err(e);
                    },
                }
            },
            FlagHit::NoMatch => {},
        }
        match flag_value(args, i, "--iterations") {
            FlagHit::Missing => {
                assert(provider_cli_step(av, i0, st0) == PStep::Fail("--iterations"@ + " requires a value"@));
                return Err(requires_value("--iterations"));
            },
            FlagHit::Value(v, n) => {
                match parse_positive_usize(v.as_str(), "--iterations") {
                    Ok(x) => {
                        cli.measured_iterations = x;
                        assert(provider_cli_step(av, i0, st0) == PStep::Next(cli@, n as nat));
                        i += n;
                        continue;
                    },
                    Err(e) => {
                        assert(provider_cli_step(av, i0, st0) == PStep::Fail(e@));
                        return Err(e);
                    },
                }
            },
            FlagHit::NoMatch => {},
        }
        match flag_value(args, i, "--batch-sizes") {
            FlagHit::Missing => {
                assert(provider_cli_step(av, i0, st0) == PStep::Fail("--batch-sizes"@ + " requires a value"@));
                return Err(requires_value("--batch-sizes"));
            },
            FlagHit::Value(v, n) => {
                match parse_batch_sizes(v.as_str()) {
                    Ok(x) => {
                        cli.embedding_batch_sizes = x;
                        assert(provider_cli_step(av, i0, st0) == PStep::Next(cli@, n as nat));
                        i += n;
                        continue;
                    },
                    Err(e) => {
                        assert(provider_cli_step(av, i0, st0) == PStep::Fail(e@));
                        return Err(e);
                    },
                }
            },
            FlagHit::NoMatch => {},
        }
        match flag_value(args, i, "--llm-max-tokens") {
            FlagHit::Missing => {
                assert(provider_cli_step(av, i0, st0) == PStep::Fail("--llm-max-tokens"@ + " requires a value"@));
                return Err(requires_value("--llm-max-tokens"));
            },
            FlagHit::Value(v, n) => {
                match parse_positive_u32(v.as_str(), "--llm-max-tokens") {
                    Ok(x) => {
                        cli.llm_max_tokens = x;
                        assert(provider_cli_step(av, i0, st0) == PStep::Next(cli@, n as nat));
                        i += n;
                        continue;
                    },
                    Err(e) => {
                        assert(provider_cli_step(av, i0, st0) == PStep::Fail(e@));
                        return Err(e);
                    },
                }
            },
            FlagHit::NoMatch => {},
        }
        match flag_value(args, i, "--llm-model-overrides") {
            FlagHit::Missing => {
                assert(provider_cli_step(av, i0, st0) == PStep::Fail("--llm-model-overrides"@ + " requires a value"@));
                return Err(requires_value("--llm-model-overrides"));
            },
            FlagHit::Value(v, n) => {
                match parse_provider_overrides(v.as_str()) {
                    Ok(x) => {
                        cli.llm_model_overrides = x;
                        assert(provider_cli_step(av, i0, st0) == PStep::Next(cli@, n as nat));
                        i += n;
                        continue;
                    },
                    Err(e) => {
                        assert(provider_cli_step(av, i0, st0) == PStep::Fail(e@));
                        return Err(e);
                    },
                }
            },
            FlagHit::NoMatch => {},
        }
        match flag_value(args, i, "--llm-base-url-overrides") {
            FlagHit::Missing => {
                assert(provider_cli_step(av, i0, st0) == PStep::Fail("--llm-base-url-overrides"@ + " requires a value"@));
                return Err(requires_value("--llm-base-url-overrides"));
            },
            FlagHit::Value(v, n) => {
                match parse_provider_overrides(v.as_str()) {
                    Ok(x) => {
                        cli.llm_base_url_overrides = x;
                        assert(provider_cli_step(av, i0, st0) == PStep::Next(cli@, n as nat));
                        i += n;
                        continue;
                    },
                    Err(e) => {
                        assert(provider_cli_step(av, i0, st0) == PStep::Fail(e@));
                        return Err(e);
                    },
                }
            },
            FlagHit::NoMatch => {},
        }
        if is_arg(&a, "--normalize-l2") {
            cli.normalize_l2 = true;
            assert(provider_cli_step(av, i0, st0) == PStep::Next(cli@, 1));
            i += 1;
            continue;
        }
        match flag_value(args, i, "--business-ops-scenarios") {
            FlagHit::Missing => {
                assert(provider_cli_step(av, i0, st0) == PStep::Fail("--business-ops-scenarios"@ + " requires a value"@));
                return Err(requires_value("--business-ops-scenarios"));
            },
            FlagHit::Value(v, n) => {
                match parse_scenario_list(v.as_str()) {
                    Ok(x) => {
                        cli.business_ops_scenarios = x;
                        assert(provider_cli_step(av, i0, st0) == PStep::Next(cli@, n as nat));
                        i += n;
                        continue;
                    },
                    Err(e) => {
                        assert(provider_cli_step(av, i0, st0) == PStep::Fail(e@));
                        return Err(e);
                    },
                }
            },
            FlagHit::NoMatch => {},
        }
        match flag_value(args, i, "--business-ops-max-turns") {
            FlagHit::Missing => {
                assert(provider_cli_step(av, i0, st0) == PStep::Fail("--business-ops-max-turns"@ + " requires a value"@));
                return Err(requires_value("--business-ops-max-turns"));
            },
            FlagHit::Value(v, n) => {
                match parse_positive_usize(v.as_str(), "--business-ops-max-turns") {
                    Ok(x) => {
                        cli.business_ops_max_turns = x;
                        assert(provider_cli_step(av, i0, st0) == PStep::Next(cli@, n as nat));
                        i += n;
                        continue;
                    },
                    Err(e) => {
                        assert(provider_cli_step(av, i0, st0) == PStep::Fail(e@));
                        return Err(e);
                    },
                }
            },
            FlagHit::NoMatch => {},
        }
        if is_arg(&a, "--business-ops-diagnostics") {
            cli.business_ops_diagnostics = true;
            assert(provider_cli_step(av, i0, st0) == PStep::Next(cli@, 1));
            i += 1;
            continue;
        }
        match flag_value(args, i, "--output") {
            FlagHit::Missing => {
                assert(provider_cli_step(av, i0, st0) == PStep::Fail("--output"@ + " requires a value"@));
                return Err(requires_value("--output"));
            },
            FlagHit::Value(v, n) => {
                cli.output_path = v;
                assert(provider_cli_step(av, i0, st0) == PStep::Next(cli@, n as nat));
                i += n;
                continue;
            },
            FlagHit::NoMatch => {},
        }        let mut m = chars_of("unknown argument: ");
        crate::text::append_vec(&mut m, &a);
        assert(provider_cli_step(av, i0, st0) == PStep::Fail("unknown argument: "@ + a@));
        return Err(string_of(&m));
    }
    Ok(ProviderBenchArgs::Run(cli))
}

// ---------------------------------------------------------------------------
// Benchmark options
// ---------------------------------------------------------------------------

/// A provider configuration as overrides give it: provider, model, base URL.
pub type OverrideModel = (LlmProviderId, Option<Seq<char>>, Option<Seq<char>>);

/// One configuration per provider that has a model or a base URL override,
/// in the providers' order.
pub open spec fn override_configs(
    providers: Seq<LlmProviderId>,
    models: Seq<(LlmProviderId, Seq<char>)>,
    urls: Seq<(LlmProviderId, Seq<char>)>,
) -> Seq<OverrideModel>
    decreases providers.len(),
{
    if providers.len() == 0 {
        Seq::empty()
    } else {
        let init = override_configs(providers.drop_last(), models, urls);
        let p = providers.last();
        let m = ov_get(models, p);
        let u = ov_get(urls, p);
        if m is None && u is None {
            init
        } else {
            init.push((p, m, u))
        }
    }
}

/// A configuration carrying only overrides: no key and no token cap of its
/// own.
pub open spec fn override_only(c: LlmProviderConfig) -> bool {
    c.api_key is None && c.max_tokens is None
}

pub open spec fn override_views(v: Seq<LlmProviderConfig>) -> Seq<OverrideModel> {
    Seq::new(v.len(), |i: int| (v[i].provider, opt_view(v[i].model), opt_view(v[i].base_url)))
}

/// The provider configurations that the overrides call for.
pub fn build_llm_provider_configs(
    providers: &Vec<LlmProviderId>,
    model_overrides: &Vec<(LlmProviderId, String)>,
    base_url_overrides: &Vec<(LlmProviderId, String)>,
) -> (r: Vec<LlmProviderConfig>)
    ensures
        override_views(r@) == override_configs(providers@, ov_views(model_overrides@), ov_views(base_url_overrides@)),
        forall|i: int| 0 <= i < r@.len() ==> override_only(#[trigger] r@[i]),
{
    let ghost mv = ov_views(model_overrides@);
    let ghost uv = ov_views(base_url_overrides@);
    let mut out: Vec<LlmProviderConfig> = Vec::new();
    let mut i: usize = 0;
    assert(providers@.take(0) =~= Seq::<LlmProviderId>::empty());
    assert(override_views(out@) =~= Seq::<OverrideModel>::empty());
    while i < providers.len()
        invariant
            i <= providers.len(),
            mv == ov_views(model_overrides@),
            uv == ov_views(base_url_overrides@),
            override_views(out@) == override_configs(providers@.take(i as int), mv, uv),
            forall|k: int| 0 <= k < out@.len() ==> override_only(#[trigger] out@[k]),
        decreases providers.len() - i,
    {
        assert(providers@.take(i + 1).drop_last() =~= providers@.take(i as int));
        assert(providers@.take(i + 1).last() == providers@[i as int]);
        let p = providers[i];
        let model = ov_lookup(model_overrides, p);
        let base_url = ov_lookup(base_url_overrides, p);
        if model.is_some() || base_url.is_some() {
            let ghost prev = out@;
            out.push(LlmProviderConfig { provider: p, api_key: None, model, base_url, max_tokens: None });
            assert(override_views(out@) =~= override_views(prev).push(override_views(out@).last()));
        }
        i += 1;
    }
    assert(providers@.take(providers.len() as int) =~= providers@);
    out
}

fn copy_providers(v: &Vec<LlmProviderId>) -> (r: Vec<LlmProviderId>)
    ensures
        r@ == v@,
{
    let mut out: Vec<LlmProviderId> = Vec::new();
    let mut k: usize = 0;
    while k < v.len()
        invariant
            k <= v.len(),
            out@ == v@.take(k as int),
        decreases v.len() - k,
    {
        out.push(v[k]);
        assert(v@.take(k + 1) =~= v@.take(k as int).push(v@[k as int]));
        k += 1;
    }
    assert(v@.take(v.len() as int) =~= v@);
    out
}

/// The options of the business-operations benchmark: the LLM providers,
/// iterations and token cap of the command line, the configurations its
/// overrides call for, its scenarios, turns and diagnostics, and three
/// prompts per turn.
pub fn business_ops_options(cli: &ProviderBenchCli) -> (r: BusinessOpsBenchOptions)
    ensures
        r.providers@ == cli@.llm_providers,
        r.warmup_iterations == cli.warmup_iterations,
        r.measured_iterations == cli.measured_iterations,
        r.max_tokens == cli.llm_max_tokens,
        override_views(r.provider_configs@) == override_configs(cli@.llm_providers, cli@.llm_model_overrides, cli@.llm_base_url_overrides),
        forall|i: int| 0 <= i < r.provider_configs@.len() ==> override_only(#[trigger] r.provider_configs@[i]),
        r.max_turns == cli.business_ops_max_turns,
        r.max_prompts_per_turn == 3,
        views(r.scenario_filter@) == cli@.business_ops_scenarios,
        r.diagnostics == cli.business_ops_diagnostics,
{
    BusinessOpsBenchOptions {
        providers: copy_providers(&cli.llm_providers),
        warmup_iterations: cli.warmup_iterations,
        measured_iterations: cli.measured_iterations,
        max_tokens: cli.llm_max_tokens,
        provider_configs: build_llm_provider_configs(&cli.llm_providers, &cli.llm_model_overrides, &cli.llm_base_url_overrides),
        max_turns: cli.business_ops_max_turns,
        max_prompts_per_turn: 3,
        scenario_filter: copy_strings(&cli.business_ops_scenarios),
        diagnostics: cli.business_ops_diagnostics,
    }
}

/// Whether the suite runs the embeddings benchmark: unless only the LLM
/// workload was asked for.
pub fn runs_embeddings(workload: WorkloadSelection) -> (r: bool)
    ensures
        r == (workload != WorkloadSelection::Llm),
{
    workload != WorkloadSelection::Llm
}

/// The options of the suite's LLM benchmark, unless only embeddings were
/// asked for.
pub fn llm_suite_options(cli: &ProviderBenchCli) -> (r: Option<LlmBenchOptions>)
    ensures
        match r {
            None => cli.workload == WorkloadSelection::Embeddings,
            Some(o) => {
                &&& cli.workload != WorkloadSelection::Embeddings
                &&& o.providers@ == cli@.llm_providers
                &&& o.warmup_iterations == cli.warmup_iterations
                &&& o.measured_iterations == cli.measured_iterations
                &&& o.max_tokens == cli.llm_max_tokens
                &&& override_views(o.provider_configs@) == override_configs(cli@.llm_providers, cli@.llm_model_overrides, cli@.llm_base_url_overrides)
                &&& forall|i: int| 0 <= i < o.provider_configs@.len() ==> override_only(#[trigger] o.provider_configs@[i])
            },
        },
{
    if cli.workload == WorkloadSelection::Embeddings {
        return None;
    }
    Some(LlmBenchOptions {
        providers: copy_providers(&cli.llm_providers),
        warmup_iterations: cli.warmup_iterations,
        measured_iterations: cli.measured_iterations,
        max_tokens: cli.llm_max_tokens,
        provider_configs: build_llm_provider_configs(&cli.llm_providers, &cli.llm_model_overrides, &cli.llm_base_url_overrides),
    })
}

} // verus!
