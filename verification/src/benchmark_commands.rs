//! What the app's benchmark commands decide before anything runs: which
//! providers a request names, the configuration each is called with, and
//! the options of each workload.
//!
//! The stored provider settings and the model catalog's context windows
//! are read by the caller and handed in.
use vstd::prelude::*;

use crate::bench::agentic_coding::AgenticCodingBenchOptions;
use crate::bench::business_ops::BusinessOpsBenchOptions;
use crate::bench::diagram::DiagramBenchOptions;
use crate::bench::llm::{llm_provider_name, llm_provider_of, LlmBenchOptions, LlmProviderConfig, LlmProviderId};
use crate::text::{
    chars_of, copy_string, copy_strings, lit, opt_view, seq_eq, string_of, trim, trimmed, trimmed_nonempty,
    trimmed_nonempty_string, views,
};

verus! {

/// Which benchmarks a run covers.
#[derive(Debug, Clone, Copy, PartialEq, Eq, Structural)]
pub enum BenchmarkWorkload {
    Llm,
    BusinessOps,
    LlmAndBusinessOps,
    AgenticCoding,
}

/// A request to benchmark models; absent settings take their defaults.
#[derive(Debug)]
pub struct RunModelBenchmarkRequest {
    pub run_id: Option<String>,
    pub workload: BenchmarkWorkload,
    /// Provider names; every provider when absent.
    pub providers: Option<Vec<String>>,
    /// A model per provider name.
    pub provider_models: Option<Vec<(String, String)>>,
    pub warmup_iterations: Option<usize>,
    pub measured_iterations: Option<usize>,
    pub business_ops_max_turns: Option<usize>,
    pub business_ops_prompts_per_day: Option<usize>,
    pub business_ops_scenarios: Option<Vec<String>>,
}

/// A request to run the diagram benchmark with one provider.
#[derive(Debug)]
pub struct RunDiagramBenchmarkRequest {
    pub run_id: Option<String>,
    pub provider: Option<String>,
    pub provider_model: Option<String>,
    pub max_tokens: Option<u32>,
    pub timeout_seconds: Option<u64>,
    pub enable_diagram_tools: Option<bool>,
}

/// The settings stored for a provider.
#[derive(Debug)]
pub struct StoredProviderConfig {
    pub api_key: String,
    pub base_url: Option<String>,
    pub default_model: Option<String>,
}

/// The response cap of a benchmark when nothing else gives one.
pub const DEFAULT_BENCHMARK_MAX_TOKENS: u32 = 4096;

/// The largest response MiniMax accepts.
pub const MINIMAX_MAX_TOKENS: u32 = 196608;

// ---------------------------------------------------------------------------
// Providers
// ---------------------------------------------------------------------------

/// The providers a list of names gives, reading them in order: blank names
/// are skipped, repeats are dropped, and the first unknown name is refused.
pub open spec fn providers_of(raw: Seq<Seq<char>>) -> Result<Seq<LlmProviderId>, Seq<char>>
    decreases raw.len(),
{
    if raw.len() == 0 {
        Ok(Seq::empty())
    } else {
        match providers_of(raw.drop_last()) {
            Err(e) => Err(e),
            Ok(acc) => {
                let t = trim(raw.last());
                if t.len() == 0 {
                    Ok(acc)
                } else {
                    match llm_provider_of(t) {
                        None => Err("invalid provider '"@ + t + "': "@ + ("unsupported llm provider: "@ + t)),
                        Some(p) => Ok(if acc.contains(p) { acc } else { acc.push(p) }),
                    }
                }
            },
        }
    }
}

pub open spec fn requested_providers(raw: Option<Seq<Seq<char>>>) -> Result<Seq<LlmProviderId>, Seq<char>> {
    match raw {
        None => Ok(seq![LlmProviderId::MiniMax, LlmProviderId::Kimi, LlmProviderId::Zhipu, LlmProviderId::Modal]),
        Some(r) => providers_of(r),
    }
}

pub open spec fn opt_views(o: Option<Vec<String>>) -> Option<Seq<Seq<char>>> {
    match o {
        Some(v) => Some(views(v@)),
        None => None,
    }
}

fn contains_provider(v: &Vec<LlmProviderId>, p: LlmProviderId) -> (r: bool)
    ensures
        r == v@.contains(p),
{
    let mut i: usize = 0;
    while i < v.len()
        invariant
            i <= v.len(),
            forall|j: int| 0 <= j < i ==> v@[j] != p,
        decreases v.len() - i,
    {
        if v[i] == p {
            assert(v@[i as int] == p);
            return true;
        }
        i += 1;
    }
    false
}

/// The providers a request names (see `providers_of`); every provider, in
/// the benchmark's order, when it names none.
pub fn resolve_providers(raw: &Option<Vec<String>>) -> (r: Result<Vec<LlmProviderId>, String>)
    ensures
        match requested_providers(opt_views(*raw)) {
            Ok(ps) => r matches Ok(v) && v@ == ps,
            Err(m) => r matches Err(e) && e@ == m,
        },
{
    let names = match raw {
        None => {
            return Ok(LlmProviderId::all());
        },
        Some(names) => names,
    };
    let ghost rv = views(names@);
    assert(opt_views(*raw) == Some(rv));
    let mut out: Vec<LlmProviderId> = Vec::new();
    let mut i: usize = 0;
    assert(rv.take(0) =~= Seq::<Seq<char>>::empty());
    while i < names.len()
        invariant
            i <= names.len(),
            rv == views(names@),
            opt_views(*raw) == Some(rv),
            providers_of(rv.take(i as int)) == Ok::<Seq<LlmProviderId>, Seq<char>>(out@),
        decreases names.len() - i,
    {
        assert(rv.take(i + 1).drop_last() =~= rv.take(i as int));
        assert(rv.take(i + 1).last() == names@[i as int]@);
        let t = trimmed(names[i].as_str());
        if t.len() > 0 {
            let ts = string_of(&t);
            match LlmProviderId::parse(ts.as_str()) {
                Err(error) => {
                    let mut m = chars_of("invalid provider '");
                    crate::text::append_vec(&mut m, &t);
                    crate::text::append_str(&mut m, "': ");
                    crate::text::append_str(&mut m, error.as_str());
                    proof {
                        assert(providers_of(rv.take(i + 1)) == Err::<Seq<LlmProviderId>, Seq<char>>(m@));
                        lemma_providers_err_stays(rv, i as int + 1);
                    }
                    return Err(string_of(&m));
                },
                Ok(p) => {
                    if !contains_provider(&out, p) {
                        out.push(p);
                    }
                },
            }
        }
        i += 1;
    }
    assert(rv.take(names.len() as int) =~= rv);
    Ok(out)
}

/// Once a prefix of the names is refused, every longer prefix is refused
/// with the same message.
proof fn lemma_providers_err_stays(raw: Seq<Seq<char>>, k: int)
    requires
        0 <= k <= raw.len(),
        providers_of(raw.take(k)) is Err,
    ensures
        providers_of(raw) == providers_of(raw.take(k)),
    decreases raw.len() - k,
{
    if k < raw.len() {
        assert(raw.take(k + 1).drop_last() =~= raw.take(k));
        lemma_providers_err_stays(raw, k + 1);
    } else {
        assert(raw.take(k) =~= raw);
    }
}

// ---------------------------------------------------------------------------
// Provider configurations
// ---------------------------------------------------------------------------

/// What a provider configuration holds, as plain values.
pub open spec fn config_view(c: LlmProviderConfig) -> (LlmProviderId, Option<Seq<char>>, Option<Seq<char>>, Option<Seq<char>>, Option<u32>) {
    (c.provider, opt_view(c.api_key), opt_view(c.model), opt_view(c.base_url), c.max_tokens)
}

pub open spec fn config_views(v: Seq<LlmProviderConfig>) -> Seq<(LlmProviderId, Option<Seq<char>>, Option<Seq<char>>, Option<Seq<char>>, Option<u32>)> {
    Seq::new(v.len(), |i: int| config_view(v[i]))
}

fn copy_opt(o: &Option<String>) -> (r: Option<String>)
    ensures
        opt_view(r) == opt_view(*o),
{
    match o {
        Some(s) => Some(copy_string(s)),
        None => None,
    }
}

fn copy_config(c: &LlmProviderConfig) -> (r: LlmProviderConfig)
    ensures
        config_view(r) == config_view(*c),
{
    LlmProviderConfig {
        provider: c.provider,
        api_key: copy_opt(&c.api_key),
        model: copy_opt(&c.model),
        base_url: copy_opt(&c.base_url),
        max_tokens: c.max_tokens,
    }
}

fn copy_configs(v: &Vec<LlmProviderConfig>) -> (r: Vec<LlmProviderConfig>)
    ensures
        config_views(r@) == config_views(v@),
{
    let mut out: Vec<LlmProviderConfig> = Vec::new();
    let mut i: usize = 0;
    while i < v.len()
        invariant
            i <= v.len(),
            out@.len() == i,
            config_views(out@) =~= config_views(v@).take(i as int),
        decreases v.len() - i,
    {
        let c = copy_config(&v[i]);
        let ghost prev = out@;
        out.push(c);
        assert forall|k: int| 0 <= k < i + 1 implies #[trigger] config_views(out@)[k] == config_views(v@).take(i + 1)[k] by {
            if k < i {
                assert(config_views(prev)[k] == config_views(v@).take(i as int)[k]);
                assert(out@[k] == prev[k]);
            }
        }
        assert(config_views(out@) =~= config_views(v@).take(i + 1));
        i += 1;
    }
    assert(config_views(v@).take(v@.len() as int) =~= config_views(v@));
    out
}

fn copy_provider_list(v: &Vec<LlmProviderId>) -> (r: Vec<LlmProviderId>)
    ensures
        r@ == v@,
{
    let mut out: Vec<LlmProviderId> = Vec::new();
    let mut i: usize = 0;
    while i < v.len()
        invariant
            i <= v.len(),
            out@ == v@.take(i as int),
        decreases v.len() - i,
    {
        out.push(v[i]);
        i += 1;
        assert(out@ =~= v@.take(i as int));
    }
    assert(v@.take(v.len() as int) =~= v@);
    out
}

/// The value of the first entry with the key.
pub open spec fn entry_for(entries: Seq<(Seq<char>, Seq<char>)>, key: Seq<char>) -> Option<Seq<char>>
    decreases entries.len(),
{
    if entries.len() == 0 {
        None
    } else if entries[0].0 == key {
        Some(entries[0].1)
    } else {
        entry_for(entries.drop_first(), key)
    }
}

pub open spec fn pair_views(v: Seq<(String, String)>) -> Seq<(Seq<char>, Seq<char>)> {
    Seq::new(v.len(), |i: int| (v[i].0@, v[i].1@))
}

/// The model a request asks of a provider, by the provider's name.
pub open spec fn requested_model(models: Option<Vec<(String, String)>>, provider: LlmProviderId) -> Option<Seq<char>> {
    match models {
        Some(m) => entry_for(pair_views(m@), llm_provider_name(provider)),
        None => None,
    }
}

/// The model a provider is benchmarked with: the one the request asks of it
/// when not blank (trimmed), else the stored default.
pub open spec fn benchmark_model_of(
    models: Option<Vec<(String, String)>>,
    provider: LlmProviderId,
    stored: Option<StoredProviderConfig>,
) -> Option<Seq<char>> {
    match trimmed_nonempty(requested_model(models, provider)) {
        Some(m) => Some(m),
        None => match stored {
            Some(c) => opt_view(c.default_model),
            None => None,
        },
    }
}

fn first_entry(m: &Vec<(String, String)>, key: &str) -> (r: Option<String>)
    ensures
        opt_view(r) == entry_for(pair_views(m@), key@),
{
    let ghost pv = pair_views(m@);
    let mut i: usize = 0;
    assert(pv.skip(0) =~= pv);
    while i < m.len()
        invariant
            i <= m.len(),
            pv == pair_views(m@),
            entry_for(pv, key@) == entry_for(pv.skip(i as int), key@),
        decreases m.len() - i,
    {
        assert(pv.skip(i as int).drop_first() =~= pv.skip(i + 1));
        assert(pv.skip(i as int)[0] == pv[i as int]);
        if crate::text::str_eq(key, &chars_of(m[i].0.as_str())) {
            return Some(copy_string(&m[i].1));
        }
        i += 1;
    }
    assert(pv.skip(m.len() as int) =~= Seq::<(Seq<char>, Seq<char>)>::empty());
    None
}

/// The model a provider is benchmarked with (see `benchmark_model_of`).
pub fn benchmark_model(
    models: &Option<Vec<(String, String)>>,
    provider: LlmProviderId,
    stored: &Option<StoredProviderConfig>,
) -> (r: Option<String>)
    ensures
        opt_view(r) == benchmark_model_of(*models, provider, *stored),
{
    let asked = match models {
        Some(m) => first_entry(m, provider.as_str()),
        None => None,
    };
    match trimmed_nonempty_string(&asked) {
        Some(t) => Some(string_of(&t)),
        None => match stored {
            Some(c) => copy_opt(&c.default_model),
            None => None,
        },
    }
}

/// A response cap held to what the provider accepts, and at least 1.
pub open spec fn capped_tokens(provider: Seq<char>, requested: u32) -> u32 {
    let c = if provider == "minimax"@ && requested > MINIMAX_MAX_TOKENS {
        MINIMAX_MAX_TOKENS
    } else {
        requested
    };
    if c < 1 {
        1
    } else {
        c
    }
}

pub fn cap_provider_max_tokens(provider: &str, requested: u32) -> (r: u32)
    ensures
        r == capped_tokens(provider@, requested),
{
    let c = if crate::text::str_eq("minimax", &chars_of(provider)) && requested > MINIMAX_MAX_TOKENS {
        MINIMAX_MAX_TOKENS
    } else {
        requested
    };
    if c < 1 {
        1
    } else {
        c
    }
}

/// The response cap of a provider's benchmark: its model's context window,
/// else that of the provider's first model, else 4096; then capped.
pub open spec fn benchmark_tokens_of(provider: LlmProviderId, model_window: Option<u32>, provider_window: Option<u32>) -> u32 {
    capped_tokens(
        llm_provider_name(provider),
        match model_window {
            Some(w) => w,
            None => match provider_window {
                Some(w) => w,
                None => DEFAULT_BENCHMARK_MAX_TOKENS,
            },
        },
    )
}

/// The configuration a provider is benchmarked with: the stored key and
/// base URL when settings are stored, the chosen model, and a response cap
/// from the model catalog's context windows (`model_window` for the model,
/// `provider_window` for the provider's first model).
pub fn benchmark_provider_config(
    provider: LlmProviderId,
    stored: &Option<StoredProviderConfig>,
    model: Option<String>,
    model_window: Option<u32>,
    provider_window: Option<u32>,
) -> (r: LlmProviderConfig)
    ensures
        config_view(r) == (
            provider,
            match *stored {
                Some(c) => Some(c.api_key@),
                None => None,
            },
            opt_view(model),
            match *stored {
                Some(c) => opt_view(c.base_url),
                None => None,
            },
            Some(benchmark_tokens_of(provider, model_window, provider_window)),
        ),
{
    let requested = match model_window {
        Some(w) => w,
        None => match provider_window {
            Some(w) => w,
            None => DEFAULT_BENCHMARK_MAX_TOKENS,
        },
    };
    let max_tokens = cap_provider_max_tokens(provider.as_str(), requested);
    match stored {
        Some(c) => LlmProviderConfig {
            provider,
            api_key: Some(copy_string(&c.api_key)),
            model,
            base_url: copy_opt(&c.base_url),
            max_tokens: Some(max_tokens),
        },
        None => LlmProviderConfig { provider, api_key: None, model, base_url: None, max_tokens: Some(max_tokens) },
    }
}

// ---------------------------------------------------------------------------
// The options of a run
// ---------------------------------------------------------------------------

/// What a model benchmark request runs.
#[derive(Debug)]
pub struct ModelBenchmarkPlan {
    pub llm: Option<LlmBenchOptions>,
    pub business_ops: Option<BusinessOpsBenchOptions>,
    pub agentic_coding: Option<AgenticCodingBenchOptions>,
}

pub open spec fn at_least_one(n: usize) -> usize {
    if n < 1 {
        1
    } else {
        n
    }
}

pub open spec fn warmup_of(r: RunModelBenchmarkRequest) -> usize {
    match r.warmup_iterations {
        Some(n) => n,
        None => 1,
    }
}

pub open spec fn measured_of(r: RunModelBenchmarkRequest) -> usize {
    at_least_one(
        match r.measured_iterations {
            Some(n) => n,
            None => 4,
        },
    )
}

pub open spec fn turns_of(r: RunModelBenchmarkRequest) -> usize {
    at_least_one(
        match r.business_ops_max_turns {
            Some(n) => n,
            None => 40,
        },
    )
}

pub open spec fn prompts_of(r: RunModelBenchmarkRequest) -> usize {
    at_least_one(
        match r.business_ops_prompts_per_day {
            Some(n) => n,
            None => 3,
        },
    )
}

pub open spec fn scenarios_of(r: RunModelBenchmarkRequest) -> Seq<Seq<char>> {
    match r.business_ops_scenarios {
        Some(v) => views(v@),
        None => Seq::empty(),
    }
}

pub open spec fn runs_llm(w: BenchmarkWorkload) -> bool {
    w == BenchmarkWorkload::Llm || w == BenchmarkWorkload::LlmAndBusinessOps
}

pub open spec fn runs_business_ops(w: BenchmarkWorkload) -> bool {
    w == BenchmarkWorkload::BusinessOps || w == BenchmarkWorkload::LlmAndBusinessOps
}

fn max_one(n: usize) -> (r: usize)
    ensures
        r == at_least_one(n),
{
    if n < 1 {
        1
    } else {
        n
    }
}

/// The benchmarks a request runs, with their options; refused when no
/// provider is selected.  The LLM and business runs use the providers and
/// configurations given, a response cap of 4096 and the request's counts
/// (1 warmup, 4 measured iterations, 40 turns and 3 prompts a day by
/// default, counts other than warmup at least 1); the coding run uses its
/// own defaults.
pub fn model_benchmark_plan(
    request: &RunModelBenchmarkRequest,
    providers: &Vec<LlmProviderId>,
    configs: &Vec<LlmProviderConfig>,
) -> (r: Result<ModelBenchmarkPlan, String>)
    ensures
        providers@.len() == 0 ==> (r matches Err(e) && e@ == "at least one provider is required"@),
        providers@.len() > 0 ==> (r matches Ok(p) && {
            &&& (p.llm is Some) == runs_llm(request.workload)
            &&& (p.business_ops is Some) == runs_business_ops(request.workload)
            &&& (p.agentic_coding is Some) == (request.workload == BenchmarkWorkload::AgenticCoding)
            &&& p.llm matches Some(o) ==> {
                &&& o.providers@ == providers@
                &&& o.warmup_iterations == warmup_of(*request)
                &&& o.measured_iterations == measured_of(*request)
                &&& o.max_tokens == DEFAULT_BENCHMARK_MAX_TOKENS
                &&& config_views(o.provider_configs@) == config_views(configs@)
            }
            &&& p.business_ops matches Some(o) ==> {
                &&& o.providers@ == providers@
                &&& o.warmup_iterations == warmup_of(*request)
                &&& o.measured_iterations == measured_of(*request)
                &&& o.max_tokens == DEFAULT_BENCHMARK_MAX_TOKENS
                &&& config_views(o.provider_configs@) == config_views(configs@)
                &&& o.max_turns == turns_of(*request)
                &&& o.max_prompts_per_turn == prompts_of(*request)
                &&& views(o.scenario_filter@) == scenarios_of(*request)
                &&& !o.diagnostics
            }
            &&& p.agentic_coding matches Some(o) ==> {
                &&& o.providers@ == seq![LlmProviderId::MiniMax]
                &&& o.provider_configs@.len() == 1
                &&& o.max_tokens == crate::bench::agentic_coding::DEFAULT_MAX_TOKENS
                &&& o.timeout_seconds == crate::bench::agentic_coding::DEFAULT_TIMEOUT_SECONDS
                &&& o.task_filter@.len() == 0
            }
        }),
{
    if providers.len() == 0 {
        return Err(lit("at least one provider is required"));
    }
    let warmup = match request.warmup_iterations {
        Some(n) => n,
        None => 1,
    };
    let measured = max_one(
        match request.measured_iterations {
            Some(n) => n,
            None => 4,
        },
    );
    let turns = max_one(
        match request.business_ops_max_turns {
            Some(n) => n,
            None => 40,
        },
    );
    let prompts = max_one(
        match request.business_ops_prompts_per_day {
            Some(n) => n,
            None => 3,
        },
    );
    let w = request.workload;
    let llm = if w == BenchmarkWorkload::Llm || w == BenchmarkWorkload::LlmAndBusinessOps {
        Some(
            LlmBenchOptions {
                providers: copy_provider_list(providers),
                warmup_iterations: warmup,
                measured_iterations: measured,
                max_tokens: DEFAULT_BENCHMARK_MAX_TOKENS,
                provider_configs: copy_configs(configs),
            },
        )
    } else {
        None
    };
    let business_ops = if w == BenchmarkWorkload::BusinessOps || w == BenchmarkWorkload::LlmAndBusinessOps {
        let scenarios = match &request.business_ops_scenarios {
            Some(v) => copy_strings(v),
            None => Vec::new(),
        };
        assert(views(scenarios@) =~= scenarios_of(*request));
        Some(
            BusinessOpsBenchOptions {
                providers: copy_provider_list(providers),
                warmup_iterations: warmup,
                measured_iterations: measured,
                max_tokens: DEFAULT_BENCHMARK_MAX_TOKENS,
                provider_configs: copy_configs(configs),
                max_turns: turns,
                max_prompts_per_turn: prompts,
                scenario_filter: scenarios,
                diagnostics: false,
            },
        )
    } else {
        None
    };
    let agentic_coding = if w == BenchmarkWorkload::AgenticCoding {
        Some(AgenticCodingBenchOptions::default())
    } else {
        None
    };
    Ok(ModelBenchmarkPlan { llm, business_ops, agentic_coding })
}

// ---------------------------------------------------------------------------
// The diagram benchmark
// ---------------------------------------------------------------------------

/// The provider a diagram request names, MiniMax when it names none.
pub open spec fn diagram_provider_of(provider: Option<Seq<char>>) -> Result<LlmProviderId, Seq<char>> {
    match provider {
        None => Ok(LlmProviderId::MiniMax),
        Some(p) => match llm_provider_of(p) {
            Some(id) => Ok(id),
            None => Err("invalid provider: "@ + ("unsupported llm provider: "@ + p)),
        },
    }
}

pub fn diagram_provider(request: &RunDiagramBenchmarkRequest) -> (r: Result<LlmProviderId, String>)
    ensures
        match diagram_provider_of(opt_view(request.provider)) {
            Ok(p) => r == Ok::<LlmProviderId, String>(p),
            Err(m) => r matches Err(e) && e@ == m,
        },
{
    match &request.provider {
        None => Ok(LlmProviderId::MiniMax),
        Some(p) => match LlmProviderId::parse(p.as_str()) {
            Ok(id) => Ok(id),
            Err(error) => {
                let mut m = chars_of("invalid provider: ");
                crate::text::append_str(&mut m, error.as_str());
                Err(string_of(&m))
            },
        },
    }
}

/// The options of a diagram run with the provider a request names and its
/// stored settings: the request's model, else the stored default; the
/// request's response cap (4096 for the run when absent), a timeout of 180
/// seconds and the diagram tools unless the request says otherwise.
pub fn diagram_benchmark_options(
    request: &RunDiagramBenchmarkRequest,
    provider: LlmProviderId,
    stored: &Option<StoredProviderConfig>,
) -> (r: DiagramBenchOptions)
    ensures
        r.providers@ == seq![provider],
        config_views(r.provider_configs@) == seq![
            (
                provider,
                match *stored {
                    Some(c) => Some(c.api_key@),
                    None => None,
                },
                match opt_view(request.provider_model) {
                    Some(m) => Some(m),
                    None => match *stored {
                        Some(c) => opt_view(c.default_model),
                        None => None,
                    },
                },
                match *stored {
                    Some(c) => opt_view(c.base_url),
                    None => None,
                },
                request.max_tokens,
            ),
        ],
        r.max_tokens == match request.max_tokens {
            Some(n) => n,
            None => DEFAULT_BENCHMARK_MAX_TOKENS,
        },
        r.timeout_seconds == match request.timeout_seconds {
            Some(n) => n,
            None => 180,
        },
        r.enable_diagram_tools == match request.enable_diagram_tools {
            Some(b) => b,
            None => true,
        },
{
    let model = match &request.provider_model {
        Some(m) => Some(copy_string(m)),
        None => match stored {
            Some(c) => copy_opt(&c.default_model),
            None => None,
        },
    };
    let config = match stored {
        Some(c) => LlmProviderConfig {
            provider,
            api_key: Some(copy_string(&c.api_key)),
            model,
            base_url: copy_opt(&c.base_url),
            max_tokens: request.max_tokens,
        },
        None => LlmProviderConfig { provider, api_key: None, model, base_url: None, max_tokens: request.max_tokens },
    };
    let configs = vec![config];
    let providers = vec![provider];
    assert(providers@ =~= seq![provider]);
    let r = DiagramBenchOptions {
        providers,
        provider_configs: configs,
        max_tokens: match request.max_tokens {
            Some(n) => n,
            None => DEFAULT_BENCHMARK_MAX_TOKENS,
        },
        timeout_seconds: match request.timeout_seconds {
            Some(n) => n,
            None => 180,
        },
        enable_diagram_tools: match request.enable_diagram_tools {
            Some(b) => b,
            None => true,
        },
    };
    assert(config_views(r.provider_configs@) =~= seq![config_view(r.provider_configs@[0])]);
    r
}

/// The providers a request names are never repeated.
pub proof fn law_requested_providers_distinct(raw: Seq<Seq<char>>)
    ensures
        providers_of(raw) matches Ok(ps) ==> forall|i: int, j: int| 0 <= i < j < ps.len() ==> ps[i] != ps[j],
    decreases raw.len(),
{
    if raw.len() > 0 {
        law_requested_providers_distinct(raw.drop_last());
        if let Ok(acc) = providers_of(raw.drop_last()) {
            let t = trim(raw.last());
            if t.len() > 0 {
                if let Some(p) = llm_provider_of(t) {
                    if !acc.contains(p) {
                        let ps = acc.push(p);
                        assert forall|i: int, j: int| 0 <= i < j < ps.len() implies ps[i] != ps[j] by {
                            if j == acc.len() {
                                assert(acc[i] == ps[i]);
                            }
                        }
                    }
                }
            }
        }
    }
}

} // verus!
