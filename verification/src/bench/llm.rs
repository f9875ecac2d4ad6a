//! The shared-task LLM benchmark: providers, their configuration, and the
//! text side of judging a response.
//!
//! Calling the providers and timing them, and the arithmetic of scores and
//! rates, are the caller's business.
use vstd::prelude::*;

use crate::text::{
    append_str, chars_of, contains, contains_vec, join, join_vec, lit, lower, lower_vec, opt_view,
    seq_eq, slice_vec, split_ws, split_ws_vec, string_of, trim, trim_vec, trimmed,
    trimmed_nonempty, trimmed_nonempty_string, views,
};

verus! {

// ---------------------------------------------------------------------------
// Providers
// ---------------------------------------------------------------------------

#[derive(PartialEq, Eq, Structural, Clone, Copy, Debug)]
pub enum LlmProviderId {
    MiniMax,
    Kimi,
    Zhipu,
    Modal,
}

pub open spec fn llm_provider_name(p: LlmProviderId) -> Seq<char> {
    match p {
        LlmProviderId::MiniMax => "minimax"@,
        LlmProviderId::Kimi => "kimi"@,
        LlmProviderId::Zhipu => "zhipu"@,
        LlmProviderId::Modal => "modal"@,
    }
}

/// The provider a name denotes, trimmed and ignoring ASCII case; `glm` is
/// another name of Zhipu.
pub open spec fn llm_provider_of(s: Seq<char>) -> Option<LlmProviderId> {
    let n = lower(trim(s));
    if n == "minimax"@ {
        Some(LlmProviderId::MiniMax)
    } else if n == "kimi"@ {
        Some(LlmProviderId::Kimi)
    } else if n == "zhipu"@ || n == "glm"@ {
        Some(LlmProviderId::Zhipu)
    } else if n == "modal"@ {
        Some(LlmProviderId::Modal)
    } else {
        None
    }
}

fn is_word(v: &Vec<char>, s: &str) -> (r: bool)
    ensures
        r == (v@ == s@),
{
    let c = chars_of(s);
    seq_eq(v, &c)
}

impl LlmProviderId {
    pub fn as_str(&self) -> (r: &'static str)
        ensures
            r@ == llm_provider_name(*self),
    {
        match self {
            LlmProviderId::MiniMax => "minimax",
            LlmProviderId::Kimi => "kimi",
            LlmProviderId::Zhipu => "zhipu",
            LlmProviderId::Modal => "modal",
        }
    }

    /// Every provider, in the order the benchmark runs them.
    pub fn all() -> (r: Vec<LlmProviderId>)
        ensures
            r@ == seq![LlmProviderId::MiniMax, LlmProviderId::Kimi, LlmProviderId::Zhipu, LlmProviderId::Modal],
    {
        let r = vec![LlmProviderId::MiniMax, LlmProviderId::Kimi, LlmProviderId::Zhipu, LlmProviderId::Modal];
        assert(r@ =~= seq![LlmProviderId::MiniMax, LlmProviderId::Kimi, LlmProviderId::Zhipu, LlmProviderId::Modal]);
        r
    }

    /// Reads a provider name; an unknown name is refused with a message
    /// that quotes it.
    pub fn parse(value: &str) -> (r: Result<LlmProviderId, String>)
        ensures
            match llm_provider_of(value@) {
                Some(p) => r == Ok::<LlmProviderId, String>(p),
                None => r matches Err(m) && m@ == "unsupported llm provider: "@ + value@,
            },
    {
        let n = lower_vec(&trimmed(value));
        if is_word(&n, "minimax") {
            Ok(LlmProviderId::MiniMax)
        } else if is_word(&n, "kimi") {
            Ok(LlmProviderId::Kimi)
        } else if is_word(&n, "zhipu") || is_word(&n, "glm") {
            Ok(LlmProviderId::Zhipu)
        } else if is_word(&n, "modal") {
            Ok(LlmProviderId::Modal)
        } else {
            let mut m = chars_of("unsupported llm provider: ");
            append_str(&mut m, value);
            Err(string_of(&m))
        }
    }
}

impl std::str::FromStr for LlmProviderId {
    type Err = String;

    fn from_str(value: &str) -> Result<LlmProviderId, String> {
        LlmProviderId::parse(value)
    }
}

// ---------------------------------------------------------------------------
// Task categories
// ---------------------------------------------------------------------------

#[derive(PartialEq, Eq, Structural, Clone, Copy, Debug)]
pub enum LlmTaskCategory {
    Reasoning,
    Classification,
    Extraction,
    CodeComprehension,
    InstructionFollowing,
    AgenticChoice,
    ToolUse,
}

pub open spec fn category_rank(c: LlmTaskCategory) -> u8 {
    match c {
        LlmTaskCategory::Reasoning => 0,
        LlmTaskCategory::Classification => 1,
        LlmTaskCategory::Extraction => 2,
        LlmTaskCategory::CodeComprehension => 3,
        LlmTaskCategory::InstructionFollowing => 4,
        LlmTaskCategory::AgenticChoice => 5,
        LlmTaskCategory::ToolUse => 6,
    }
}

impl LlmTaskCategory {
    /// The position of the category in reports.
    pub fn order(self) -> (r: u8)
        ensures
            r == category_rank(self),
    {
        match self {
            LlmTaskCategory::Reasoning => 0,
            LlmTaskCategory::Classification => 1,
            LlmTaskCategory::Extraction => 2,
            LlmTaskCategory::CodeComprehension => 3,
            LlmTaskCategory::InstructionFollowing => 4,
            LlmTaskCategory::AgenticChoice => 5,
            LlmTaskCategory::ToolUse => 6,
        }
    }
}

/// Each category has its own position.
pub proof fn law_category_order_distinct(a: LlmTaskCategory, b: LlmTaskCategory)
    ensures
        category_rank(a) == category_rank(b) <==> a == b,
{
}

// ---------------------------------------------------------------------------
// Options and configuration
// ---------------------------------------------------------------------------

/// Credentials and endpoint given for a provider; blank values count as
/// absent.
#[derive(Debug)]
pub struct LlmProviderConfig {
    pub provider: LlmProviderId,
    pub api_key: Option<String>,
    pub model: Option<String>,
    pub base_url: Option<String>,
    /// A cap on response tokens for this provider.
    pub max_tokens: Option<u32>,
}

#[derive(Debug)]
pub struct LlmBenchOptions {
    pub providers: Vec<LlmProviderId>,
    pub warmup_iterations: usize,
    pub measured_iterations: usize,
    pub max_tokens: u32,
    pub provider_configs: Vec<LlmProviderConfig>,
}

impl Default for LlmBenchOptions {
    fn default() -> (r: LlmBenchOptions)
        ensures
            r.providers@ == seq![LlmProviderId::MiniMax, LlmProviderId::Kimi, LlmProviderId::Zhipu, LlmProviderId::Modal],
            r.warmup_iterations == 1,
            r.measured_iterations == 4,
            r.max_tokens == 512,
            r.provider_configs@.len() == 0,
    {
        LlmBenchOptions {
            providers: LlmProviderId::all(),
            warmup_iterations: 1,
            measured_iterations: 4,
            max_tokens: 512,
            provider_configs: Vec::new(),
        }
    }
}

/// The configuration a provider is called with.
#[derive(Debug)]
pub struct ResolvedProviderConfig {
    pub provider: LlmProviderId,
    pub api_key: String,
    pub model: Option<String>,
    pub base_url: Option<String>,
}

pub open spec fn api_key_vars(p: LlmProviderId) -> Seq<Seq<char>> {
    match p {
        LlmProviderId::MiniMax => seq!["MINIMAX_API_KEY"@],
        LlmProviderId::Kimi => seq!["KIMI_API_KEY"@],
        LlmProviderId::Zhipu => seq!["ZHIPU_API_KEY"@, "GLM_API_KEY"@, "ZAI_API_KEY"@],
        LlmProviderId::Modal => seq!["MODAL_API_KEY"@],
    }
}

pub open spec fn model_vars(p: LlmProviderId) -> Seq<Seq<char>> {
    match p {
        LlmProviderId::MiniMax => seq!["MINIMAX_MODEL"@],
        LlmProviderId::Kimi => seq!["KIMI_MODEL"@],
        LlmProviderId::Zhipu => seq!["ZHIPU_MODEL"@, "GLM_MODEL"@],
        LlmProviderId::Modal => seq!["MODAL_MODEL"@],
    }
}

pub open spec fn base_url_vars(p: LlmProviderId) -> Seq<Seq<char>> {
    match p {
        LlmProviderId::MiniMax => seq!["MINIMAX_BASE_URL"@],
        LlmProviderId::Kimi => seq!["KIMI_BASE_URL"@],
        LlmProviderId::Zhipu => seq!["ZHIPU_BASE_URL"@, "GLM_BASE_URL"@],
        LlmProviderId::Modal => seq!["MODAL_BASE_URL"@],
    }
}

/// The environment variables that may hold the provider's API key, in the
/// order they are tried.
pub fn api_key_env_keys(provider: LlmProviderId) -> (r: Vec<String>)
    ensures
        views(r@) == api_key_vars(provider),
{
    let r = match provider {
        LlmProviderId::MiniMax => vec![lit("MINIMAX_API_KEY")],
        LlmProviderId::Kimi => vec![lit("KIMI_API_KEY")],
        LlmProviderId::Zhipu => vec![lit("ZHIPU_API_KEY"), lit("GLM_API_KEY"), lit("ZAI_API_KEY")],
        LlmProviderId::Modal => vec![lit("MODAL_API_KEY")],
    };
    assert(views(r@) =~= api_key_vars(provider));
    r
}

/// The environment variables that may name the provider's model.
pub fn model_env_keys(provider: LlmProviderId) -> (r: Vec<String>)
    ensures
        views(r@) == model_vars(provider),
{
    let r = match provider {
        LlmProviderId::MiniMax => vec![lit("MINIMAX_MODEL")],
        LlmProviderId::Kimi => vec![lit("KIMI_MODEL")],
        LlmProviderId::Zhipu => vec![lit("ZHIPU_MODEL"), lit("GLM_MODEL")],
        LlmProviderId::Modal => vec![lit("MODAL_MODEL")],
    };
    assert(views(r@) =~= model_vars(provider));
    r
}

/// The environment variables that may hold the provider's endpoint.
pub fn base_url_env_keys(provider: LlmProviderId) -> (r: Vec<String>)
    ensures
        views(r@) == base_url_vars(provider),
{
    let r = match provider {
        LlmProviderId::MiniMax => vec![lit("MINIMAX_BASE_URL")],
        LlmProviderId::Kimi => vec![lit("KIMI_BASE_URL")],
        LlmProviderId::Zhipu => vec![lit("ZHIPU_BASE_URL"), lit("GLM_BASE_URL")],
        LlmProviderId::Modal => vec![lit("MODAL_BASE_URL")],
    };
    assert(views(r@) =~= base_url_vars(provider));
    r
}

pub open spec fn default_model_name(p: LlmProviderId) -> Seq<char> {
    match p {
        LlmProviderId::MiniMax => "MiniMax-M2.5"@,
        LlmProviderId::Kimi => "kimi-k2.5"@,
        LlmProviderId::Zhipu => "glm-5"@,
        LlmProviderId::Modal => "zai-org/GLM-5-FP8"@,
    }
}

/// The model benchmarked when none is configured.
pub fn default_model(provider: LlmProviderId) -> (r: &'static str)
    ensures
        r@ == default_model_name(provider),
{
    match provider {
        LlmProviderId::MiniMax => "MiniMax-M2.5",
        LlmProviderId::Kimi => "kimi-k2.5",
        LlmProviderId::Zhipu => "glm-5",
        LlmProviderId::Modal => "zai-org/GLM-5-FP8",
    }
}

/// A value trimmed, or `None` when it is blank.
pub fn normalize_optional_string(value: Option<String>) -> (r: Option<String>)
    ensures
        opt_view(r) == trimmed_nonempty(opt_view(value)),
{
    match trimmed_nonempty_string(&value) {
        Some(t) => Some(string_of(&t)),
        None => None,
    }
}

pub open spec fn missing_message(p: LlmProviderId) -> Seq<char> {
    match p {
        LlmProviderId::MiniMax => "missing MiniMax credentials: set MINIMAX_API_KEY or provide override config"@,
        LlmProviderId::Kimi => "missing Kimi credentials: set KIMI_API_KEY or provide override config"@,
        LlmProviderId::Zhipu => "missing GLM/Zhipu credentials: set ZHIPU_API_KEY or GLM_API_KEY"@,
        LlmProviderId::Modal => "missing Modal credentials: set MODAL_API_KEY or provide override config"@,
    }
}

/// The error given when no API key is found for a provider.
pub fn missing_config_message(provider: LlmProviderId) -> (r: String)
    ensures
        r@ == missing_message(provider),
{
    match provider {
        LlmProviderId::MiniMax => lit("missing MiniMax credentials: set MINIMAX_API_KEY or provide override config"),
        LlmProviderId::Kimi => lit("missing Kimi credentials: set KIMI_API_KEY or provide override config"),
        LlmProviderId::Zhipu => lit("missing GLM/Zhipu credentials: set ZHIPU_API_KEY or GLM_API_KEY"),
        LlmProviderId::Modal => lit("missing Modal credentials: set MODAL_API_KEY or provide override config"),
    }
}

/// The value of the variable in an environment snapshot (the first pair
/// with its name).
pub open spec fn env_value(env: Seq<(Seq<char>, Seq<char>)>, name: Seq<char>) -> Option<Seq<char>>
    decreases env.len(),
{
    if env.len() == 0 {
        None
    } else if env[0].0 == name {
        Some(env[0].1)
    } else {
        env_value(env.drop_first(), name)
    }
}

/// The trimmed value of the first of the variables that is set to something
/// other than blanks.
pub open spec fn first_set(env: Seq<(Seq<char>, Seq<char>)>, keys: Seq<Seq<char>>) -> Option<Seq<char>>
    decreases keys.len(),
{
    if keys.len() == 0 {
        None
    } else {
        match trimmed_nonempty(env_value(env, keys[0])) {
            Some(v) => Some(v),
            None => first_set(env, keys.drop_first()),
        }
    }
}

pub open spec fn pair_views(v: Seq<(String, String)>) -> Seq<(Seq<char>, Seq<char>)> {
    Seq::new(v.len(), |i: int| (v[i].0@, v[i].1@))
}

fn env_lookup(env: &Vec<(String, String)>, name: &Vec<char>) -> (r: Option<Vec<char>>)
    ensures
        match env_value(pair_views(env@), name@) {
            Some(v) => r matches Some(x) && x@ == v,
            None => r is None,
        },
{
    let ghost ev = pair_views(env@);
    let mut i: usize = 0;
    assert(ev.skip(0) =~= ev);
    while i < env.len()
        invariant
            i <= env.len(),
            ev == pair_views(env@),
            env_value(ev, name@) == env_value(ev.skip(i as int), name@),
        decreases env.len() - i,
    {
        assert(ev.skip(i as int).drop_first() =~= ev.skip(i + 1));
        let k = chars_of(env[i].0.as_str());
        if seq_eq(&k, name) {
            return Some(chars_of(env[i].1.as_str()));
        }
        i += 1;
    }
    assert(ev.skip(env.len() as int) =~= Seq::<(Seq<char>, Seq<char>)>::empty());
    None
}

/// The first of the variables that is set to something other than blanks,
/// trimmed, in an environment snapshot.
pub fn first_non_empty_env(env: &Vec<(String, String)>, keys: &Vec<String>) -> (r: Option<String>)
    ensures
        opt_view(r) == first_set(pair_views(env@), views(keys@)),
{
    let ghost kv = views(keys@);
    let mut i: usize = 0;
    assert(kv.skip(0) =~= kv);
    while i < keys.len()
        invariant
            i <= keys.len(),
            kv == views(keys@),
            first_set(pair_views(env@), kv) == first_set(pair_views(env@), kv.skip(i as int)),
        decreases keys.len() - i,
    {
        assert(kv.skip(i as int).drop_first() =~= kv.skip(i + 1));
        assert(kv.skip(i as int)[0] == keys@[i as int]@);
        let name = chars_of(keys[i].as_str());
        let v = env_lookup(env, &name);
        match v {
            Some(x) => {
                let t = trim_vec(&x);
                if t.len() > 0 {
                    return Some(string_of(&t));
                }
            },
            None => {},
        }
        i += 1;
    }
    assert(kv.skip(keys.len() as int) =~= Seq::<Seq<char>>::empty());
    None
}

pub open spec fn opt_or(a: Option<Seq<char>>, b: Option<Seq<char>>) -> Option<Seq<char>> {
    match a {
        Some(x) => Some(x),
        None => b,
    }
}

/// The first configuration given for the provider.
pub open spec fn override_index(cs: Seq<LlmProviderConfig>, p: LlmProviderId, i: int) -> int
    decreases cs.len() - i,
{
    if i < 0 || i >= cs.len() {
        -1
    } else if cs[i].provider == p {
        i
    } else {
        override_index(cs, p, i + 1)
    }
}

pub proof fn lemma_override_index(cs: Seq<LlmProviderConfig>, p: LlmProviderId, i: int)
    requires
        0 <= i,
    ensures
        override_index(cs, p, i) == -1 || (i <= override_index(cs, p, i) < cs.len()),
    decreases cs.len() - i,
{
    if i < cs.len() && cs[i].provider != p {
        lemma_override_index(cs, p, i + 1);
    }
}

/// A field of the provider's configuration, blank counting as absent.
pub open spec fn given(cs: Seq<LlmProviderConfig>, p: LlmProviderId, field: int) -> Option<Seq<char>> {
    let i = override_index(cs, p, 0);
    if i < 0 {
        None
    } else {
        trimmed_nonempty(
            opt_view(
                if field == 0 {
                    cs[i].api_key
                } else if field == 1 {
                    cs[i].model
                } else {
                    cs[i].base_url
                },
            ),
        )
    }
}

/// Each setting comes from the provider's configuration, else from its
/// environment variables; the model falls back to the default model.
/// Without an API key the provider cannot be benchmarked.
pub fn resolve_provider_config(
    provider: LlmProviderId,
    overrides: &Vec<LlmProviderConfig>,
    env: &Vec<(String, String)>,
) -> (r: Result<ResolvedProviderConfig, String>)
    ensures
        ({
            let cs = overrides@;
            let ev = pair_views(env@);
            let key = opt_or(given(cs, provider, 0), first_set(ev, api_key_vars(provider)));
            match key {
                None => r matches Err(m) && m@ == missing_message(provider),
                Some(k) => r matches Ok(c) && c.provider == provider && c.api_key@ == k
                    && opt_view(c.model) == Some(opt_or(opt_or(given(cs, provider, 1), first_set(ev, model_vars(provider))), Some(default_model_name(provider)))->0)
                    && opt_view(c.base_url) == opt_or(given(cs, provider, 2), first_set(ev, base_url_vars(provider))),
            }
        }),
{
    let ghost cs = overrides@;
    let mut i: usize = 0;
    proof {
        lemma_override_index(cs, provider, 0);
    }
    while i < overrides.len() && overrides[i].provider != provider
        invariant
            i <= overrides.len(),
            cs == overrides@,
            override_index(cs, provider, 0) == override_index(cs, provider, i as int),
        decreases overrides.len() - i,
    {
        i += 1;
    }
    let found = i < overrides.len();
    let (ok, om, ob) = if found {
        let c = &overrides[i];
        let k = match trimmed_nonempty_string(&c.api_key) {
            Some(v) => Some(string_of(&v)),
            None => None,
        };
        let m = match trimmed_nonempty_string(&c.model) {
            Some(v) => Some(string_of(&v)),
            None => None,
        };
        let b = match trimmed_nonempty_string(&c.base_url) {
            Some(v) => Some(string_of(&v)),
            None => None,
        };
        (k, m, b)
    } else {
        (None, None, None)
    };
    assert(opt_view(ok) == given(cs, provider, 0));
    assert(opt_view(om) == given(cs, provider, 1));
    assert(opt_view(ob) == given(cs, provider, 2));
    let api_key = match ok {
        Some(k) => k,
        None => match first_non_empty_env(env, &api_key_env_keys(provider)) {
            Some(k) => k,
            None => {
                return Err(missing_config_message(provider));
            },
        },
    };
    let model = match om {
        Some(m) => m,
        None => match first_non_empty_env(env, &model_env_keys(provider)) {
            Some(m) => m,
            None => lit(default_model(provider)),
        },
    };
    let base_url = match ob {
        Some(b) => Some(b),
        None => first_non_empty_env(env, &base_url_env_keys(provider)),
    };
    Ok(ResolvedProviderConfig { provider, api_key, model: Some(model), base_url })
}

// ---------------------------------------------------------------------------
// Judging responses
// ---------------------------------------------------------------------------

/// Lower-cased (ASCII), with runs of whitespace made single spaces and the
/// ends trimmed.
pub open spec fn normalized_words(s: Seq<char>) -> Seq<char> {
    join(split_ws(lower(s)), " "@)
}

pub fn normalize_words(input: &str) -> (r: String)
    ensures
        r@ == normalized_words(input@),
{
    let l = lower_vec(&chars_of(input));
    let words = split_ws_vec(&l);
    string_of(&join_vec(&words, &chars_of(" ")))
}

/// A label answer passes when the normalised response contains the
/// normalised label.
pub fn label_matches(response: &str, expected: &str) -> (r: bool)
    ensures
        r == contains(normalized_words(response@), normalized_words(expected@)),
{
    let a = normalize_words(response);
    let b = normalize_words(expected);
    contains_vec(&chars_of(a.as_str()), &chars_of(b.as_str()))
}

/// How many of the phrases occur in the response, ignoring ASCII case.
pub open spec fn phrases_found(response: Seq<char>, phrases: Seq<Seq<char>>) -> nat
    decreases phrases.len(),
{
    if phrases.len() == 0 {
        0
    } else {
        phrases_found(response, phrases.drop_last()) + if contains(lower(response), lower(phrases.last())) {
            1nat
        } else {
            0nat
        }
    }
}

/// For a free-text answer: how many required phrases it contains, and
/// whether it has more words than allowed.
pub fn contains_text_counts(response: &str, required: &Vec<String>, max_words: Option<usize>) -> (r: (usize, bool))
    ensures
        r.0 == phrases_found(response@, views(required@)),
        r.1 == (max_words is Some && split_ws(response@).len() > max_words->0),
{
    let ghost pv = views(required@);
    let lr = lower_vec(&chars_of(response));
    let mut matched: usize = 0;
    let mut i: usize = 0;
    assert(pv.take(0) =~= Seq::<Seq<char>>::empty());
    while i < required.len()
        invariant
            i <= required.len(),
            pv == views(required@),
            lr@ == lower(response@),
            matched == phrases_found(response@, pv.take(i as int)),
            matched <= i,
        decreases required.len() - i,
    {
        assert(pv.take(i + 1).drop_last() =~= pv.take(i as int));
        let p = lower_vec(&chars_of(required[i].as_str()));
        if contains_vec(&lr, &p) {
            matched += 1;
        }
        i += 1;
    }
    assert(pv.take(required.len() as int) =~= pv);
    let over = match max_words {
        Some(limit) => split_ws_vec(&chars_of(response)).len() > limit,
        None => false,
    };
    (matched, over)
}

/// The first `max_chars` characters, with `...` when the text was longer.
pub open spec fn truncated_text(s: Seq<char>, max_chars: nat) -> Seq<char> {
    if s.len() > max_chars {
        s.take(max_chars as int) + "..."@
    } else {
        s
    }
}

pub fn truncate_response(response: &str, max_chars: usize) -> (r: String)
    ensures
        r@ == truncated_text(response@, max_chars as nat),
{
    let c = chars_of(response);
    if c.len() > max_chars {
        let mut out = slice_vec(&c, 0, max_chars);
        assert(c@.subrange(0, max_chars as int) =~= c@.take(max_chars as int));
        append_str(&mut out, "...");
        string_of(&out)
    } else {
        string_of(&c)
    }
}

} // verus!
