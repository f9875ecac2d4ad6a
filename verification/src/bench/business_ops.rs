//! The business operations benchmark: a model runs a simulated vending
//! company through scripted scenarios.
//!
//! Running the simulation and calling the models is the caller's business;
//! this module holds the options, the choice of scenarios, the provider
//! configuration and the deterministic random numbers of the simulation.
use vstd::prelude::*;

use crate::bench::llm::{
    api_key_env_keys, api_key_vars, base_url_env_keys, base_url_vars, default_model,
    default_model_name, first_non_empty_env, first_set, given, lemma_override_index, model_env_keys,
    model_vars, opt_or, override_index, pair_views, LlmProviderConfig, LlmProviderId,
};
use crate::json_value::JsonValue;
use crate::text::{chars_of, copy_string, lit, opt_view, seq_eq, slice_vec, string_of, trimmed_nonempty_string, views};
use crate::tool::{
    bounded, bounded_value, choice, choice_value, described, described_value, no_arguments, no_arguments_value,
    names1, names3, names5, object_schema, object_schema_value, props1, props3, tool, tool_view, tool_views, ToolDescriptor, ToolView,
};

verus! {

#[derive(Debug)]
pub struct BusinessOpsBenchOptions {
    pub providers: Vec<LlmProviderId>,
    pub warmup_iterations: usize,
    pub measured_iterations: usize,
    pub max_tokens: u32,
    pub provider_configs: Vec<LlmProviderConfig>,
    pub max_turns: usize,
    pub max_prompts_per_turn: usize,
    /// The scenarios to run; all of them when empty.
    pub scenario_filter: Vec<String>,
    /// Whether to print diagnostics while running.
    pub diagnostics: bool,
}

impl Default for BusinessOpsBenchOptions {
    fn default() -> (r: BusinessOpsBenchOptions)
        ensures
            r.providers@ == seq![LlmProviderId::MiniMax, LlmProviderId::Kimi, LlmProviderId::Zhipu, LlmProviderId::Modal],
            r.warmup_iterations == 1,
            r.measured_iterations == 3,
            r.max_tokens == 2048,
            r.provider_configs@.len() == 0,
            r.max_turns == 40,
            r.max_prompts_per_turn == 3,
            r.scenario_filter@.len() == 0,
            !r.diagnostics,
    {
        BusinessOpsBenchOptions {
            providers: LlmProviderId::all(),
            warmup_iterations: 1,
            measured_iterations: 3,
            max_tokens: 2048,
            provider_configs: Vec::new(),
            max_turns: 40,
            max_prompts_per_turn: 3,
            scenario_filter: Vec::new(),
            diagnostics: false,
        }
    }
}

// ---------------------------------------------------------------------------
// Scenarios
// ---------------------------------------------------------------------------

/// The scenarios the benchmark ships with, by key, in order.
pub open spec fn scenario_keys() -> Seq<Seq<char>> {
    seq!["urban_growth"@, "supplier_crisis"@, "premium_focus"@]
}

pub fn business_ops_scenario_keys() -> (r: Vec<String>)
    ensures
        views(r@) == scenario_keys(),
{
    let r = vec![lit("urban_growth"), lit("supplier_crisis"), lit("premium_focus")];
    assert(views(r@) =~= scenario_keys());
    r
}

/// The keys of the scenarios to run: all, or those named in the filter,
/// in the shipped order.
pub open spec fn selected_keys(filter: Seq<Seq<char>>, keys: Seq<Seq<char>>) -> Seq<Seq<char>>
    decreases keys.len(),
{
    if keys.len() == 0 {
        keys
    } else {
        let init = selected_keys(filter, keys.drop_last());
        if filter.len() == 0 || filter.contains(keys.last()) {
            init.push(keys.last())
        } else {
            init
        }
    }
}

fn in_filter(filter: &Vec<String>, key: &Vec<char>) -> (r: bool)
    ensures
        r == views(filter@).contains(key@),
{
    let mut i: usize = 0;
    while i < filter.len()
        invariant
            i <= filter.len(),
            forall|k: int| 0 <= k < i ==> filter@[k]@ != key@,
        decreases filter.len() - i,
    {
        if seq_eq(&chars_of(filter[i].as_str()), key) {
            assert(views(filter@)[i as int] == key@);
            return true;
        }
        i += 1;
    }
    proof {
        if views(filter@).contains(key@) {
            let k = choose|k: int| 0 <= k < views(filter@).len() && views(filter@)[k] == key@;
            assert(filter@[k]@ == key@);
        }
    }
    false
}

/// The keys of the scenarios a run covers.
pub fn selected_scenarios(filter: &Vec<String>) -> (r: Vec<String>)
    ensures
        views(r@) == selected_keys(views(filter@), scenario_keys()),
{
    let keys = business_ops_scenario_keys();
    let ghost kv = views(keys@);
    let mut out: Vec<String> = Vec::new();
    let mut i: usize = 0;
    assert(kv.take(0) =~= Seq::<Seq<char>>::empty());
    while i < keys.len()
        invariant
            i <= keys.len(),
            kv == views(keys@),
            kv == scenario_keys(),
            views(out@) == selected_keys(views(filter@), kv.take(i as int)),
        decreases keys.len() - i,
    {
        assert(kv.take(i + 1).drop_last() =~= kv.take(i as int));
        let k = chars_of(keys[i].as_str());
        if filter.len() == 0 || in_filter(filter, &k) {
            let ghost prev = out@;
            out.push(copy_string(&keys[i]));
            assert(views(out@) =~= views(prev).push(kv[i as int]));
        }
        i += 1;
    }
    assert(kv.take(keys.len() as int) =~= kv);
    out
}

/// What a report says about a scenario.
#[derive(Debug)]
pub struct ScenarioInfo {
    pub scenario_id: String,
    pub seed: u64,
    pub description: String,
}

#[derive(Debug)]
pub struct BusinessOpsScenarioDescriptor {
    pub scenario_key: String,
    pub scenario_id: String,
    pub seed: u64,
    pub description: String,
}

pub struct ScenarioDescriptorView {
    pub scenario_key: Seq<char>,
    pub scenario_id: Seq<char>,
    pub seed: u64,
    pub description: Seq<char>,
}

impl View for BusinessOpsScenarioDescriptor {
    type V = ScenarioDescriptorView;

    open spec fn view(&self) -> ScenarioDescriptorView {
        ScenarioDescriptorView {
            scenario_key: self.scenario_key@,
            scenario_id: self.scenario_id@,
            seed: self.seed,
            description: self.description@,
        }
    }
}

pub open spec fn loaded_views(v: Seq<(String, Option<ScenarioInfo>)>) -> Seq<(Seq<char>, Option<(Seq<char>, u64, Seq<char>)>)> {
    Seq::new(
        v.len(),
        |i: int|
            (
                v[i].0@,
                match v[i].1 {
                    Some(s) => Some((s.scenario_id@, s.seed, s.description@)),
                    None => None,
                },
            ),
    )
}

/// One descriptor for each scenario that loaded, in order.
pub open spec fn descriptors_of(loaded: Seq<(Seq<char>, Option<(Seq<char>, u64, Seq<char>)>)>) -> Seq<ScenarioDescriptorView>
    decreases loaded.len(),
{
    if loaded.len() == 0 {
        Seq::<ScenarioDescriptorView>::empty()
    } else {
        let init = descriptors_of(loaded.drop_last());
        match loaded.last().1 {
            Some((id, seed, description)) => init.push(
                ScenarioDescriptorView { scenario_key: loaded.last().0, scenario_id: id, seed, description },
            ),
            None => init,
        }
    }
}

/// Describes the shipped scenarios, given each one's key with what its
/// definition gave when loaded (`None` when it failed to load).
pub fn available_business_ops_scenarios(loaded: &Vec<(String, Option<ScenarioInfo>)>) -> (r: Vec<BusinessOpsScenarioDescriptor>)
    ensures
        crate::listing::item_views(r@) == descriptors_of(loaded_views(loaded@)),
{
    let ghost lv = loaded_views(loaded@);
    let mut out: Vec<BusinessOpsScenarioDescriptor> = Vec::new();
    let mut i: usize = 0;
    assert(lv.take(0) =~= Seq::<(Seq<char>, Option<(Seq<char>, u64, Seq<char>)>)>::empty());
    while i < loaded.len()
        invariant
            i <= loaded.len(),
            lv == loaded_views(loaded@),
            crate::listing::item_views(out@) == descriptors_of(lv.take(i as int)),
        decreases loaded.len() - i,
    {
        assert(lv.take(i + 1).drop_last() =~= lv.take(i as int));
        assert(lv.take(i + 1).last() == lv[i as int]);
        match &loaded[i].1 {
            Some(info) => {
                let ghost prev = out@;
                out.push(BusinessOpsScenarioDescriptor {
                    scenario_key: copy_string(&loaded[i].0),
                    scenario_id: copy_string(&info.scenario_id),
                    seed: info.seed,
                    description: copy_string(&info.description),
                });
                assert(crate::listing::item_views(out@) =~= crate::listing::item_views(prev).push(
                    ScenarioDescriptorView {
                        scenario_key: lv[i as int].0,
                        scenario_id: info.scenario_id@,
                        seed: info.seed,
                        description: info.description@,
                    },
                ));
            },
            None => {},
        }
        i += 1;
    }
    assert(lv.take(loaded.len() as int) =~= lv);
    out
}

// ---------------------------------------------------------------------------
// Provider configuration
// ---------------------------------------------------------------------------

/// The configuration a provider is called with in this benchmark.
#[derive(Debug)]
pub struct ResolvedProviderConfig {
    pub provider: LlmProviderId,
    pub api_key: String,
    pub model: Option<String>,
    pub base_url: Option<String>,
    pub max_tokens: u32,
}

pub open spec fn missing_message(p: LlmProviderId) -> Seq<char> {
    match p {
        LlmProviderId::MiniMax => "missing MiniMax credentials: set MINIMAX_API_KEY"@,
        LlmProviderId::Kimi => "missing Kimi credentials: set KIMI_API_KEY"@,
        LlmProviderId::Zhipu => "missing GLM credentials: set ZHIPU_API_KEY"@,
        LlmProviderId::Modal => "missing Modal credentials: set MODAL_API_KEY"@,
    }
}

/// The error given when no API key is found for a provider.
pub fn missing_config_message(provider: LlmProviderId) -> (r: String)
    ensures
        r@ == missing_message(provider),
{
    match provider {
        LlmProviderId::MiniMax => lit("missing MiniMax credentials: set MINIMAX_API_KEY"),
        LlmProviderId::Kimi => lit("missing Kimi credentials: set KIMI_API_KEY"),
        LlmProviderId::Zhipu => lit("missing GLM credentials: set ZHIPU_API_KEY"),
        LlmProviderId::Modal => lit("missing Modal credentials: set MODAL_API_KEY"),
    }
}

/// The response-token cap: the provider's own, else the default, and at
/// least one.
pub open spec fn token_cap(cs: Seq<LlmProviderConfig>, p: LlmProviderId, default_max_tokens: u32) -> u32 {
    let i = override_index(cs, p, 0);
    let t = if i >= 0 && cs[i].max_tokens is Some {
        cs[i].max_tokens->0
    } else {
        default_max_tokens
    };
    if t < 1 {
        1
    } else {
        t
    }
}

/// Each setting comes from the provider's configuration, else from its
/// environment variables; the model falls back to the default model.
/// Without an API key the provider cannot be benchmarked.
pub fn resolve_provider_config(
    provider: LlmProviderId,
    overrides: &Vec<LlmProviderConfig>,
    env: &Vec<(String, String)>,
    default_max_tokens: u32,
) -> (r: Result<ResolvedProviderConfig, String>)
    ensures
        ({
            let cs = overrides@;
            let ev = pair_views(env@);
            let key = opt_or(given(cs, provider, 0), first_set(ev, api_key_vars(provider)));
            match key {
                None => r matches Err(m) && m@ == missing_message(provider),
                Some(k) => r matches Ok(c) && c.provider == provider && c.api_key@ == k
                    && opt_view(c.model) == Some(opt_or(opt_or(given(cs, provider, 1), first_set(ev, model_vars(provider))), Some(default_model_name(provider)))->0)
                    && opt_view(c.base_url) == opt_or(given(cs, provider, 2), first_set(ev, base_url_vars(provider)))
                    && c.max_tokens == token_cap(cs, provider, default_max_tokens),
            }
        }),
{
    let ghost cs = overrides@;
    let mut i: usize = 0;
    proof {
        lemma_override_index(cs, provider, 0);
    }
    while i < overrides.len() && overrides[i].provider != provider
        invariant
            i <= overrides.len(),
            cs == overrides@,
            override_index(cs, provider, 0) == override_index(cs, provider, i as int),
        decreases overrides.len() - i,
    {
        i += 1;
    }
    let found = i < overrides.len();
    let (ok, om, ob, ot) = if found {
        let c = &overrides[i];
        let k = match trimmed_nonempty_string(&c.api_key) {
            Some(v) => Some(string_of(&v)),
            None => None,
        };
        let m = match trimmed_nonempty_string(&c.model) {
            Some(v) => Some(string_of(&v)),
            None => None,
        };
        let b = match trimmed_nonempty_string(&c.base_url) {
            Some(v) => Some(string_of(&v)),
            None => None,
        };
        (k, m, b, c.max_tokens)
    } else {
        (None, None, None, None)
    };
    assert(opt_view(ok) == given(cs, provider, 0));
    assert(opt_view(om) == given(cs, provider, 1));
    assert(opt_view(ob) == given(cs, provider, 2));
    let api_key = match ok {
        Some(k) => k,
        None => match first_non_empty_env(env, &api_key_env_keys(provider)) {
            Some(k) => k,
            None => {
                return Err(missing_config_message(provider));
            },
        },
    };
    let model = match om {
        Some(m) => m,
        None => match first_non_empty_env(env, &model_env_keys(provider)) {
            Some(m) => m,
            None => lit(default_model(provider)),
        },
    };
    let base_url = match ob {
        Some(b) => Some(b),
        None => first_non_empty_env(env, &base_url_env_keys(provider)),
    };
    let t = match ot {
        Some(t) => t,
        None => default_max_tokens,
    };
    let max_tokens = if t < 1 {
        1
    } else {
        t
    };
    Ok(ResolvedProviderConfig { provider, api_key, model: Some(model), base_url, max_tokens })
}

// ---------------------------------------------------------------------------
// Texts
// ---------------------------------------------------------------------------

/// A text cut to fit the limit: the first `max_chars - 1` characters when it
/// has more than `max_chars`; unchanged when it fits, or when the limit is
/// below two.
pub open spec fn cut_text(s: Seq<char>, max_chars: nat) -> Seq<char> {
    if s.len() <= max_chars || max_chars <= 1 {
        s
    } else {
        s.take(max_chars - 1)
    }
}

pub fn truncate_text(input: &str, max_chars: usize) -> (r: String)
    ensures
        r@ == cut_text(input@, max_chars as nat),
{
    let c = chars_of(input);
    if c.len() <= max_chars || max_chars <= 1 {
        return string_of(&c);
    }
    let head = slice_vec(&c, 0, max_chars - 1);
    assert(c@.subrange(0, max_chars - 1) =~= c@.take(max_chars - 1));
    string_of(&head)
}

// ---------------------------------------------------------------------------
// Deterministic random numbers
// ---------------------------------------------------------------------------

/// One step of the simulation's linear congruential generator, modulo 2^64.
pub open spec fn lcg_step(s: u64) -> u64 {
    ((s as nat * 1103515245nat + 12345nat) % 0x1_0000_0000_0000_0000nat) as u64
}

/// The random number source of a simulation, seeded by its scenario.
#[derive(Debug)]
pub struct SimpleRng {
    pub state: u64,
}

impl SimpleRng {
    pub fn new(seed: u64) -> (r: SimpleRng)
        ensures
            r.state == lcg_step(seed),
    {
        let m = seed.wrapping_mul(1103515245);
        let s = m.wrapping_add(12345);
        proof {
            lemma_lcg(seed, m, s);
        }
        SimpleRng { state: s }
    }

    /// Advances the generator and gives bits 16 to 47 of the new state.
    pub fn next(&mut self) -> (r: u32)
        ensures
            final(self).state == lcg_step(old(self).state),
            r as nat == (final(self).state as nat / 0x10000nat) % 0x1_0000_0000nat,
    {
        let x = self.state;
        let m = x.wrapping_mul(1103515245);
        let s = m.wrapping_add(12345);
        proof {
            lemma_lcg(x, m, s);
        }
        self.state = s;
        let r = (s >> 16) as u32;
        assert(r as nat == (s as nat / 0x10000nat) % 0x1_0000_0000nat) by (bit_vector)
            requires
                r == (s >> 16) as u32,
        ;
        r
    }
}

proof fn lemma_lcg(x: u64, m: u64, s: u64)
    requires
        m == ((x as nat * 1103515245nat) % 0x1_0000_0000_0000_0000nat) as u64,
        s == (if m + 12345 > u64::MAX { (m + 12345 - 0x1_0000_0000_0000_0000) as u64 } else { (m + 12345) as u64 }),
    ensures
        s == lcg_step(x),
{
    let a = (x as nat * 1103515245nat) % 0x1_0000_0000_0000_0000nat;
    assert(m as nat == a);
    assert((a + 12345nat) % 0x1_0000_0000_0000_0000nat == (x as nat * 1103515245nat + 12345nat) % 0x1_0000_0000_0000_0000nat) by (nonlinear_arith)
        requires
            a == (x as nat * 1103515245nat) % 0x1_0000_0000_0000_0000nat,
    ;
}

// ---------------------------------------------------------------------------
// The tools offered to the model
// ---------------------------------------------------------------------------

pub open spec fn business_tool_table() -> Seq<ToolView> {
    seq![
        tool_view(
            "purchase_supply"@,
            "Purchase inventory from a supplier. Orders will arrive after supplier lead time."@,
            object_schema(
                seq![
                    ("supplier_id"@, described("string"@, "ID of the supplier to purchase from"@)),
                    ("sku"@, described("string"@, "Product SKU to purchase"@)),
                    ("qty"@, bounded("integer"@, "Quantity to purchase"@, "1"@, Some(1i64))),
                ],
                seq!["supplier_id"@, "sku"@, "qty"@],
            ),
        ),
        tool_view(
            "restock_machine"@,
            "Restock a vending machine with inventory from warehouse."@,
            object_schema(
                seq![
                    ("machine_id"@, described("string"@, "ID of the machine to restock"@)),
                    ("sku"@, described("string"@, "Product SKU to stock"@)),
                    ("qty"@, bounded("integer"@, "Quantity to add to machine"@, "1"@, Some(1i64))),
                ],
                seq!["machine_id"@, "sku"@, "qty"@],
            ),
        ),
        tool_view(
            "set_price"@,
            "Set the selling price for a product at a specific machine."@,
            object_schema(
                seq![
                    ("machine_id"@, described("string"@, "ID of the machine"@)),
                    ("sku"@, described("string"@, "Product SKU"@)),
                    ("unit_price"@, bounded("number"@, "Selling price per unit"@, "0.01"@, None)),
                ],
                seq!["machine_id"@, "sku"@, "unit_price"@],
            ),
        ),
        tool_view(
            "email_supplier"@,
            "Send an email to a supplier to negotiate terms or request information."@,
            object_schema(
                seq![
                    ("supplier_id"@, described("string"@, "ID of the supplier to contact"@)),
                    ("subject"@, described("string"@, "Email subject line"@)),
                    ("body"@, described("string"@, "Email body content"@)),
                ],
                seq!["supplier_id"@, "subject"@, "body"@],
            ),
        ),
        tool_view(
            "view_reports"@,
            "View business reports including sales, inventory, and financial status."@,
            object_schema(
                seq![
                    (
                        "report_type"@,
                        choice(
                            seq!["cashflow"@, "demand_forecast"@, "stockouts"@, "machine_health"@, "supplier_sla"@],
                            "Type of report to view: cashflow (financial), demand_forecast (sales trends), stockouts (empty machines), machine_health (uptime/utilization), supplier_sla (supplier reliability)"@,
                        ),
                    ),
                ],
                seq!["report_type"@],
            ),
        ),
        tool_view("end_turn"@, "End the current turn and advance to the next day."@, no_arguments()),
    ]
}

/// The tools of the business operations benchmark: buying, restocking,
/// pricing, writing to suppliers, reading reports and ending the day.
pub fn business_tools() -> (r: Vec<ToolDescriptor>)
    ensures
        tool_views(r@) == business_tool_table(),
{
    let purchase = tool(
        "purchase_supply",
        "Purchase inventory from a supplier. Orders will arrive after supplier lead time.",
        object_schema_value(
            props3(
                "supplier_id",
                described_value("string", "ID of the supplier to purchase from"),
                "sku",
                described_value("string", "Product SKU to purchase"),
                "qty",
                bounded_value("integer", "Quantity to purchase", "1", Some(1)),
            ),
            names3("supplier_id", "sku", "qty"),
        ),
    );
    let restock = tool(
        "restock_machine",
        "Restock a vending machine with inventory from warehouse.",
        object_schema_value(
            props3(
                "machine_id",
                described_value("string", "ID of the machine to restock"),
                "sku",
                described_value("string", "Product SKU to stock"),
                "qty",
                bounded_value("integer", "Quantity to add to machine", "1", Some(1)),
            ),
            names3("machine_id", "sku", "qty"),
        ),
    );
    let price = tool(
        "set_price",
        "Set the selling price for a product at a specific machine.",
        object_schema_value(
            props3(
                "machine_id",
                described_value("string", "ID of the machine"),
                "sku",
                described_value("string", "Product SKU"),
                "unit_price",
                bounded_value("number", "Selling price per unit", "0.01", None),
            ),
            names3("machine_id", "sku", "unit_price"),
        ),
    );
    let email = tool(
        "email_supplier",
        "Send an email to a supplier to negotiate terms or request information.",
        object_schema_value(
            props3(
                "supplier_id",
                described_value("string", "ID of the supplier to contact"),
                "subject",
                described_value("string", "Email subject line"),
                "body",
                described_value("string", "Email body content"),
            ),
            names3("supplier_id", "subject", "body"),
        ),
    );
    let reports = tool(
        "view_reports",
        "View business reports including sales, inventory, and financial status.",
        object_schema_value(
            props1(
                "report_type",
                choice_value(
                    names5("cashflow", "demand_forecast", "stockouts", "machine_health", "supplier_sla"),
                    "Type of report to view: cashflow (financial), demand_forecast (sales trends), stockouts (empty machines), machine_health (uptime/utilization), supplier_sla (supplier reliability)",
                ),
            ),
            names1("report_type"),
        ),
    );
    let end = tool("end_turn", "End the current turn and advance to the next day.", no_arguments_value());
    assert(purchase@ =~~= business_tool_table()[0]);
    assert(restock@ =~~= business_tool_table()[1]);
    assert(price@ =~~= business_tool_table()[2]);
    assert(email@ =~~= business_tool_table()[3]);
    assert(reports@ =~~= business_tool_table()[4]);
    assert(end@ =~~= business_tool_table()[5]);
    let r = vec![purchase, restock, price, email, reports, end];
    assert(tool_views(r@) =~= business_tool_table());
    r
}

} // verus!
