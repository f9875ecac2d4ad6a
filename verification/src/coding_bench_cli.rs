//! The command line of the agentic coding benchmark program.
//!
//! Reading the arguments, the API key file and printing are the caller's
//! business; this module turns the arguments into options.
use vstd::prelude::*;

use crate::bench::agentic_coding::{build_task_descriptors, coding_task_table, AgenticCodingBenchOptions};
use crate::bench::llm::{llm_provider_of, LlmProviderConfig, LlmProviderId};
use crate::cli::{
    list_items, names_or, overrides_from, ov_get, ov_insert, ov_views, parse_positive_u32,
    parse_positive_u64, parse_provider_list, parse_provider_overrides, parse_task_filter,
    positive_of, provider_list_of,
};
use crate::text::{
    append_str, chars_of, copy_string, copy_strings, eq_ignore_case, eq_ignore_case_vec, join,
    join_vec, lit, opt_view, replace_char, replace_char_vec, seq_eq, slice_vec, starts_with,
    starts_with_vec, string_of, strings_of, trim, trimmed, views, views_v,
};

verus! {

// ---------------------------------------------------------------------------
// Options
// ---------------------------------------------------------------------------

#[derive(Debug)]
pub struct CliOptions {
    pub providers: Vec<LlmProviderId>,
    pub model_overrides: Vec<(LlmProviderId, String)>,
    pub base_url_overrides: Vec<(LlmProviderId, String)>,
    pub api_key_file: Option<String>,
    pub max_tokens: u32,
    pub timeout_seconds: u64,
    pub task_filter: Vec<String>,
    pub scratch_root: Option<String>,
    pub retain_failed_workspaces: bool,
    pub output_path: Option<String>,
    pub list_tasks: bool,
}

#[verifier::ext_equal]
pub struct CliView {
    pub providers: Seq<LlmProviderId>,
    pub model_overrides: Seq<(LlmProviderId, Seq<char>)>,
    pub base_url_overrides: Seq<(LlmProviderId, Seq<char>)>,
    pub api_key_file: Option<Seq<char>>,
    pub max_tokens: u32,
    pub timeout_seconds: u64,
    pub task_filter: Seq<Seq<char>>,
    pub scratch_root: Option<Seq<char>>,
    pub retain_failed_workspaces: bool,
    pub output_path: Option<Seq<char>>,
    pub list_tasks: bool,
}

impl View for CliOptions {
    type V = CliView;

    open spec fn view(&self) -> CliView {
        CliView {
            providers: self.providers@,
            model_overrides: ov_views(self.model_overrides@),
            base_url_overrides: ov_views(self.base_url_overrides@),
            api_key_file: opt_view(self.api_key_file),
            max_tokens: self.max_tokens,
            timeout_seconds: self.timeout_seconds,
            task_filter: views(self.task_filter@),
            scratch_root: opt_view(self.scratch_root),
            retain_failed_workspaces: self.retain_failed_workspaces,
            output_path: opt_view(self.output_path),
            list_tasks: self.list_tasks,
        }
    }
}

/// MiniMax with its M2.1 model, 4096 tokens, two minutes per task.
pub open spec fn cli_defaults() -> CliView {
    CliView {
        providers: seq![LlmProviderId::MiniMax],
        model_overrides: seq![(LlmProviderId::MiniMax, "MiniMax-M2.1"@)],
        base_url_overrides: Seq::<(LlmProviderId, Seq<char>)>::empty(),
        api_key_file: None,
        max_tokens: 4096,
        timeout_seconds: 120,
        task_filter: Seq::<Seq<char>>::empty(),
        scratch_root: None,
        retain_failed_workspaces: false,
        output_path: None,
        list_tasks: false,
    }
}

impl CliOptions {
    pub fn defaults() -> (r: CliOptions)
        ensures
            r@ == cli_defaults(),
    {
        let r = CliOptions {
            providers: vec![LlmProviderId::MiniMax],
            model_overrides: vec![(LlmProviderId::MiniMax, lit("MiniMax-M2.1"))],
            base_url_overrides: Vec::new(),
            api_key_file: None,
            max_tokens: 4096,
            timeout_seconds: 120,
            task_filter: Vec::new(),
            scratch_root: None,
            retain_failed_workspaces: false,
            output_path: None,
            list_tasks: false,
        };
        assert(r@ =~= cli_defaults());
        r
    }
}

// ---------------------------------------------------------------------------
// Flags with values
// ---------------------------------------------------------------------------

/// How argument `i` relates to a flag that takes a value: not that flag,
/// the flag without a following value, or the value (from `--flag=value`,
/// or from the next argument) with the number of arguments used.
pub enum FlagMatch {
    NoMatch,
    Missing,
    Value(Seq<char>, nat),
}

pub open spec fn value_flag(args: Seq<Seq<char>>, i: int, name: Seq<char>) -> FlagMatch {
    let a = args[i];
    if starts_with(a, name.push('=')) {
        FlagMatch::Value(a.skip(name.len() + 1 as int), 1)
    } else if a == name {
        if i + 1 < args.len() {
            FlagMatch::Value(args[i + 1], 2)
        } else {
            FlagMatch::Missing
        }
    } else {
        FlagMatch::NoMatch
    }
}

#[derive(Debug)]
pub enum FlagHit {
    NoMatch,
    Missing,
    Value(String, usize),
}

pub open spec fn hit_view(h: FlagHit) -> FlagMatch {
    match h {
        FlagHit::NoMatch => FlagMatch::NoMatch,
        FlagHit::Missing => FlagMatch::Missing,
        FlagHit::Value(v, n) => FlagMatch::Value(v@, n as nat),
    }
}

pub(crate) fn flag_value(args: &Vec<String>, i: usize, name: &str) -> (r: FlagHit)
    requires
        i < args.len(),
    ensures
        hit_view(r) == value_flag(views(args@), i as int, name@),
        r matches FlagHit::Value(_, n) ==> 1 <= n <= 2 && i + n <= args.len(),
{
    let a = chars_of(args[i].as_str());
    let mut prefix = chars_of(name);
    prefix.push('=');
    if starts_with_vec(&a, &prefix) {
        let rest = slice_vec(&a, prefix.len(), a.len());
        assert(a@.subrange(prefix@.len() as int, a@.len() as int) =~= a@.skip(name@.len() + 1 as int));
        return FlagHit::Value(string_of(&rest), 1);
    }
    if seq_eq(&a, &chars_of(name)) {
        if i + 1 < args.len() {
            return FlagHit::Value(copy_string(&args[i + 1]), 2);
        }
        return FlagHit::Missing;
    }
    FlagHit::NoMatch
}

// ---------------------------------------------------------------------------
// Single-provider overrides
// ---------------------------------------------------------------------------

/// `--model` and `--base-url` apply to the one selected provider.
pub open spec fn single_override(
    target: Seq<(LlmProviderId, Seq<char>)>,
    providers: Seq<LlmProviderId>,
    value: Seq<char>,
    label: Seq<char>,
) -> Result<Seq<(LlmProviderId, Seq<char>)>, Seq<char>> {
    if providers.len() != 1 {
        Err("--"@ + replace_char(label, ' ', '-') + " can only be used when exactly one provider is selected"@)
    } else if trim(value).len() == 0 {
        Err(label + " cannot be empty"@)
    } else {
        Ok(ov_insert(target, providers[0], trim(value)))
    }
}

/// Sets the override of the one selected provider.
pub fn assign_single_provider_override(
    target: &mut Vec<(LlmProviderId, String)>,
    providers: &Vec<LlmProviderId>,
    value: &str,
    label: &str,
) -> (r: Result<(), String>)
    ensures
        match single_override(ov_views(old(target)@), providers@, value@, label@) {
            Ok(t) => r is Ok && ov_views(final(target)@) == t,
            Err(m) => (r matches Err(e) && e@ == m) && final(target)@ == old(target)@,
        },
{
    if providers.len() != 1 {
        let mut m = chars_of("--");
        let l = replace_char_vec(&chars_of(label), ' ', '-');
        crate::text::append_vec(&mut m, &l);
        append_str(&mut m, " can only be used when exactly one provider is selected");
        return Err(string_of(&m));
    }
    let t = trimmed(value);
    if t.len() == 0 {
        let mut m = chars_of(label);
        append_str(&mut m, " cannot be empty");
        return Err(string_of(&m));
    }
    crate::cli::ov_insert_vec(target, providers[0], string_of(&t));
    Ok(())
}

// ---------------------------------------------------------------------------
// The argument list
// ---------------------------------------------------------------------------

/// What one argument does: ask for help, fail, or give the next options
/// and the number of arguments used.
pub enum Step {
    Help,
    Fail(Seq<char>),
    Next(CliView, nat),
}

pub open spec fn fv(f: FlagMatch) -> Seq<char> {
    match f {
        FlagMatch::Value(v, _) => v,
        _ => Seq::<char>::empty(),
    }
}

pub open spec fn used(f: FlagMatch) -> nat {
    match f {
        FlagMatch::Value(_, n) => n,
        _ => 0,
    }
}

/// The step of a flag that matched: missing value, or the outcome of
/// applying its value.
pub open spec fn on_value(f: FlagMatch, name: Seq<char>, res: Result<CliView, Seq<char>>) -> Step {
    match f {
        FlagMatch::Missing => Step::Fail(name + " requires a value"@),
        _ => match res {
            Ok(s) => Step::Next(s, used(f)),
            Err(m) => Step::Fail(m),
        },
    }
}

pub open spec fn set_providers(st: CliView, r: Result<Seq<LlmProviderId>, Seq<char>>) -> Result<CliView, Seq<char>> {
    match r {
        Ok(ps) => Ok(CliView { providers: ps, ..st }),
        Err(m) => Err(m),
    }
}

pub open spec fn one_provider(v: Seq<char>) -> Result<Seq<LlmProviderId>, Seq<char>> {
    match llm_provider_of(v) {
        Some(p) => Ok(seq![p]),
        None => Err("unsupported llm provider: "@ + v),
    }
}

pub open spec fn set_models(st: CliView, r: Result<Seq<(LlmProviderId, Seq<char>)>, Seq<char>>) -> Result<CliView, Seq<char>> {
    match r {
        Ok(m) => Ok(CliView { model_overrides: m, ..st }),
        Err(e) => Err(e),
    }
}

pub open spec fn set_urls(st: CliView, r: Result<Seq<(LlmProviderId, Seq<char>)>, Seq<char>>) -> Result<CliView, Seq<char>> {
    match r {
        Ok(m) => Ok(CliView { base_url_overrides: m, ..st }),
        Err(e) => Err(e),
    }
}

pub open spec fn set_tokens(st: CliView, r: Result<nat, Seq<char>>) -> Result<CliView, Seq<char>> {
    match r {
        Ok(n) => Ok(CliView { max_tokens: n as u32, ..st }),
        Err(e) => Err(e),
    }
}

pub open spec fn set_timeout(st: CliView, r: Result<nat, Seq<char>>) -> Result<CliView, Seq<char>> {
    match r {
        Ok(n) => Ok(CliView { timeout_seconds: n as u64, ..st }),
        Err(e) => Err(e),
    }
}

pub open spec fn set_tasks(st: CliView, r: Result<Seq<Seq<char>>, Seq<char>>) -> Result<CliView, Seq<char>> {
    match r {
        Ok(t) => Ok(CliView { task_filter: t, ..st }),
        Err(e) => Err(e),
    }
}

/// The effect of argument `i`, flags tried in the program's order.
pub open spec fn cli_step(args: Seq<Seq<char>>, i: int, st: CliView) -> Step {
    let a = args[i];
    let f_provider = value_flag(args, i, "--provider"@);
    let f_providers = value_flag(args, i, "--providers"@);
    let f_model = value_flag(args, i, "--model"@);
    let f_url = value_flag(args, i, "--base-url"@);
    let f_models = value_flag(args, i, "--model-overrides"@);
    let f_urls = value_flag(args, i, "--base-url-overrides"@);
    let f_key = value_flag(args, i, "--api-key-file"@);
    let f_tokens = value_flag(args, i, "--max-tokens"@);
    let f_timeout = value_flag(args, i, "--timeout-seconds"@);
    let f_tasks = value_flag(args, i, "--tasks"@);
    let f_task = value_flag(args, i, "--task"@);
    let f_scratch = value_flag(args, i, "--scratch-root"@);
    let f_output = value_flag(args, i, "--output"@);
    if a == "--help"@ || a == "-h"@ {
        Step::Help
    } else if a == "--list-tasks"@ {
        Step::Next(CliView { list_tasks: true, ..st }, 1)
    } else if !(f_provider is NoMatch) {
        on_value(f_provider, "--provider"@, set_providers(st, one_provider(fv(f_provider))))
    } else if !(f_providers is NoMatch) {
        on_value(f_providers, "--providers"@, set_providers(st, provider_list_of(fv(f_providers), "at least one provider is required"@)))
    } else if !(f_model is NoMatch) {
        on_value(f_model, "--model"@, set_models(st, single_override(st.model_overrides, st.providers, fv(f_model), "model"@)))
    } else if !(f_url is NoMatch) {
        on_value(f_url, "--base-url"@, set_urls(st, single_override(st.base_url_overrides, st.providers, fv(f_url), "base URL"@)))
    } else if !(f_models is NoMatch) {
        on_value(f_models, "--model-overrides"@, set_models(st, overrides_from(list_items(fv(f_models)))))
    } else if !(f_urls is NoMatch) {
        on_value(f_urls, "--base-url-overrides"@, set_urls(st, overrides_from(list_items(fv(f_urls)))))
    } else if !(f_key is NoMatch) {
        on_value(f_key, "--api-key-file"@, Ok(CliView { api_key_file: Some(fv(f_key)), ..st }))
    } else if !(f_tokens is NoMatch) {
        on_value(f_tokens, "--max-tokens"@, set_tokens(st, positive_of(fv(f_tokens), "--max-tokens"@, u32::MAX as nat)))
    } else if !(f_timeout is NoMatch) {
        on_value(f_timeout, "--timeout-seconds"@, set_timeout(st, positive_of(fv(f_timeout), "--timeout-seconds"@, u64::MAX as nat)))
    } else if !(f_tasks is NoMatch) {
        on_value(f_tasks, "--tasks"@, set_tasks(st, names_or(fv(f_tasks), "at least one task id is required"@)))
    } else if !(f_task is NoMatch) {
        on_value(f_task, "--task"@, set_tasks(st, names_or(fv(f_task), "at least one task id is required"@)))
    } else if !(f_scratch is NoMatch) {
        on_value(f_scratch, "--scratch-root"@, Ok(CliView { scratch_root: Some(fv(f_scratch)), ..st }))
    } else if a == "--retain-failed-workspaces"@ {
        Step::Next(CliView { retain_failed_workspaces: true, ..st }, 1)
    } else if !(f_output is NoMatch) {
        on_value(f_output, "--output"@, Ok(CliView { output_path: Some(fv(f_output)), ..st }))
    } else {
        Step::Fail("unknown argument: "@ + a)
    }
}

/// What the arguments from `i` on make of the options `st`.
pub enum ArgsResult {
    Help,
    Fail(Seq<char>),
    Done(CliView),
}

pub open spec fn parse_from(args: Seq<Seq<char>>, i: int, st: CliView) -> ArgsResult
    decreases args.len() - i,
{
    if i < 0 || i >= args.len() {
        if st.providers.len() == 0 {
            ArgsResult::Fail("at least one provider is required"@)
        } else {
            ArgsResult::Done(st)
        }
    } else {
        match cli_step(args, i, st) {
            Step::Help => ArgsResult::Help,
            Step::Fail(m) => ArgsResult::Fail(m),
            Step::Next(s, n) => if n >= 1 {
                parse_from(args, i + n, s)
            } else {
                ArgsResult::Fail(Seq::<char>::empty())
            },
        }
    }
}

/// The options the arguments give, or a request for help.
#[derive(Debug)]
pub enum ParsedArgs {
    Help,
    Run(CliOptions),
}

pub(crate) fn requires_value(name: &str) -> (r: String)
    ensures
        r@ == name@ + " requires a value"@,
{
    let mut m = chars_of(name);
    append_str(&mut m, " requires a value");
    string_of(&m)
}

pub(crate) fn is_arg(a: &Vec<char>, s: &str) -> (r: bool)
    ensures
        r == (a@ == s@),
{
    seq_eq(a, &chars_of(s))
}

/// Reads the program's arguments (without the program name).
pub fn parse_args(args: &Vec<String>) -> (r: Result<ParsedArgs, String>)
    ensures
        match parse_from(views(args@), 0, cli_defaults()) {
            ArgsResult::Help => r matches Ok(ParsedArgs::Help),
            ArgsResult::Fail(m) => r matches Err(e) && e@ == m,
            ArgsResult::Done(v) => r matches Ok(ParsedArgs::Run(c)) && c@ == v,
        },
{
    let ghost av = views(args@);
    let mut cli = CliOptions::defaults();
    let mut i: usize = 0;
    while i < args.len()
        invariant
            i <= args.len(),
            av == views(args@),
            parse_from(av, 0, cli_defaults()) == parse_from(av, i as int, cli@),
        decreases args.len() - i,
    {
        let ghost st0 = cli@;
        let ghost i0 = i as int;
        let a = chars_of(args[i].as_str());
        assert(av[i0] == a@);
        if is_arg(&a, "--help") || is_arg(&a, "-h") {
            assert(cli_step(av, i0, st0) == Step::Help);
            return Ok(ParsedArgs::Help);
        }
        if is_arg(&a, "--list-tasks") {
            cli.list_tasks = true;
            assert(cli_step(av, i0, st0) == Step::Next(cli@, 1));
            i += 1;
            continue;
        }
        match flag_value(args, i, "--provider") {
            FlagHit::Missing => {
                assert(cli_step(av, i0, st0) == Step::Fail("--provider"@ + " requires a value"@));
                return Err(requires_value("--provider"));
            },
            FlagHit::Value(v, n) => {
                match LlmProviderId::parse(v.as_str()) {
                    Ok(p) => {
                        cli.providers = vec![p];
                        assert(cli@ =~= CliView { providers: seq![p], ..st0 });
                        assert(cli_step(av, i0, st0) == Step::Next(cli@, n as nat));
                        i += n;
                        continue;
                    },
                    Err(e) => {
                        assert(cli_step(av, i0, st0) == Step::Fail(e@));
                        return Err(e);
                    },
                }
            },
            FlagHit::NoMatch => {},
        }
        match flag_value(args, i, "--providers") {
            FlagHit::Missing => {
                assert(cli_step(av, i0, st0) == Step::Fail("--providers"@ + " requires a value"@));
                return Err(requires_value("--providers"));
            },
            FlagHit::Value(v, n) => {
                match parse_provider_list(v.as_str(), "at least one provider is required") {
                    Ok(ps) => {
                        cli.providers = ps;
                        assert(cli_step(av, i0, st0) == Step::Next(cli@, n as nat));
                        i += n;
                        continue;
                    },
                    Err(e) => {
                        assert(cli_step(av, i0, st0) == Step::Fail(e@));
                        return Err(e);
                    },
                }
            },
            FlagHit::NoMatch => {},
        }
        match flag_value(args, i, "--model") {
            FlagHit::Missing => {
                assert(cli_step(av, i0, st0) == Step::Fail("--model"@ + " requires a value"@));
                return Err(requires_value("--model"));
            },
            FlagHit::Value(v, n) => {
                match assign_single_provider_override(&mut cli.model_overrides, &cli.providers, v.as_str(), "model") {
                    Ok(()) => {
                        assert(cli_step(av, i0, st0) == Step::Next(cli@, n as nat));
                        i += n;
                        continue;
                    },
                    Err(e) => {
                        assert(cli_step(av, i0, st0) == Step::Fail(e@));
                        return Err(e);
                    },
                }
            },
            FlagHit::NoMatch => {},
        }
        match flag_value(args, i, "--base-url") {
            FlagHit::Missing => {
                assert(cli_step(av, i0, st0) == Step::Fail("--base-url"@ + " requires a value"@));
                return Err(requires_value("--base-url"));
            },
            FlagHit::Value(v, n) => {
                match assign_single_provider_override(&mut cli.base_url_overrides, &cli.providers, v.as_str(), "base URL") {
                    Ok(()) => {
                        assert(cli_step(av, i0, st0) == Step::Next(cli@, n as nat));
                        i += n;
                        continue;
                    },
                    Err(e) => {
                        assert(cli_step(av, i0, st0) == Step::Fail(e@));
                        return Err(e);
                    },
                }
            },
            FlagHit::NoMatch => {},
        }
        match flag_value(args, i, "--model-overrides") {
            FlagHit::Missing => {
                assert(cli_step(av, i0, st0) == Step::Fail("--model-overrides"@ + " requires a value"@));
                return Err(requires_value("--model-overrides"));
            },
            FlagHit::Value(v, n) => {
                match parse_provider_overrides(v.as_str()) {
                    Ok(m) => {
                        cli.model_overrides = m;
                        assert(cli_step(av, i0, st0) == Step::Next(cli@, n as nat));
                        i += n;
                        continue;
                    },
                    Err(e) => {
                        assert(cli_step(av, i0, st0) == Step::Fail(e@));
                        return Err(e);
                    },
                }
            },
            FlagHit::NoMatch => {},
        }
        match flag_value(args, i, "--base-url-overrides") {
            FlagHit::Missing => {
                assert(cli_step(av, i0, st0) == Step::Fail("--base-url-overrides"@ + " requires a value"@));
                return Err(requires_value("--base-url-overrides"));
            },
            FlagHit::Value(v, n) => {
                match parse_provider_overrides(v.as_str()) {
                    Ok(m) => {
                        cli.base_url_overrides = m;
                        assert(cli_step(av, i0, st0) == Step::Next(cli@, n as nat));
                        i += n;
                        continue;
                    },
                    Err(e) => {
                        assert(cli_step(av, i0, st0) == Step::Fail(e@));
                        return Err(e);
                    },
                }
            },
            FlagHit::NoMatch => {},
        }
        match flag_value(args, i, "--api-key-file") {
            FlagHit::Missing => {
                assert(cli_step(av, i0, st0) == Step::Fail("--api-key-file"@ + " requires a value"@));
                return Err(requires_value("--api-key-file"));
            },
            FlagHit::Value(v, n) => {
                cli.api_key_file = Some(v);
                assert(cli_step(av, i0, st0) == Step::Next(cli@, n as nat));
                i += n;
                continue;
            },
            FlagHit::NoMatch => {},
        }
        match flag_value(args, i, "--max-tokens") {
            FlagHit::Missing => {
                assert(cli_step(av, i0, st0) == Step::Fail("--max-tokens"@ + " requires a value"@));
                return Err(requires_value("--max-tokens"));
            },
            FlagHit::Value(v, n) => {
                match parse_positive_u32(v.as_str(), "--max-tokens") {
                    Ok(t) => {
                        cli.max_tokens = t;
                        assert(cli_step(av, i0, st0) == Step::Next(cli@, n as nat));
                        i += n;
                        continue;
                    },
                    Err(e) => {
                        assert(cli_step(av, i0, st0) == Step::Fail(e@));
                        return Err(e);
                    },
                }
            },
            FlagHit::NoMatch => {},
        }
        match flag_value(args, i, "--timeout-seconds") {
            FlagHit::Missing => {
                assert(cli_step(av, i0, st0) == Step::Fail("--timeout-seconds"@ + " requires a value"@));
                return Err(requires_value("--timeout-seconds"));
            },
            FlagHit::Value(v, n) => {
                match parse_positive_u64(v.as_str(), "--timeout-seconds") {
                    Ok(t) => {
                        cli.timeout_seconds = t;
                        assert(cli_step(av, i0, st0) == Step::Next(cli@, n as nat));
                        i += n;
                        continue;
                    },
                    Err(e) => {
                        assert(cli_step(av, i0, st0) == Step::Fail(e@));
                        return Err(e);
                    },
                }
            },
            FlagHit::NoMatch => {},
        }
        match flag_value(args, i, "--tasks") {
            FlagHit::Missing => {
                assert(cli_step(av, i0, st0) == Step::Fail("--tasks"@ + " requires a value"@));
                return Err(requires_value("--tasks"));
            },
            FlagHit::Value(v, n) => {
                match parse_task_filter(v.as_str()) {
                    Ok(t) => {
                        cli.task_filter = t;
                        assert(cli_step(av, i0, st0) == Step::Next(cli@, n as nat));
                        i += n;
                        continue;
                    },
                    Err(e) => {
                        assert(cli_step(av, i0, st0) == Step::Fail(e@));
                        return Err(e);
                    },
                }
            },
            FlagHit::NoMatch => {},
        }
        match flag_value(args, i, "--task") {
            FlagHit::Missing => {
                assert(cli_step(av, i0, st0) == Step::Fail("--task"@ + " requires a value"@));
                return Err(requires_value("--task"));
            },
            FlagHit::Value(v, n) => {
                match parse_task_filter(v.as_str()) {
                    Ok(t) => {
                        cli.task_filter = t;
                        assert(cli_step(av, i0, st0) == Step::Next(cli@, n as nat));
                        i += n;
                        continue;
                    },
                    Err(e) => {
                        assert(cli_step(av, i0, st0) == Step::Fail(e@));
                        return Err(e);
                    },
                }
            },
            FlagHit::NoMatch => {},
        }
        match flag_value(args, i, "--scratch-root") {
            FlagHit::Missing => {
                assert(cli_step(av, i0, st0) == Step::Fail("--scratch-root"@ + " requires a value"@));
                return Err(requires_value("--scratch-root"));
            },
            FlagHit::Value(v, n) => {
                cli.scratch_root = Some(v);
                assert(cli_step(av, i0, st0) == Step::Next(cli@, n as nat));
                i += n;
                continue;
            },
            FlagHit::NoMatch => {},
        }
        if is_arg(&a, "--retain-failed-workspaces") {
            cli.retain_failed_workspaces = true;
            assert(cli_step(av, i0, st0) == Step::Next(cli@, 1));
            i += 1;
            continue;
        }
        match flag_value(args, i, "--output") {
            FlagHit::Missing => {
                assert(cli_step(av, i0, st0) == Step::Fail("--output"@ + " requires a value"@));
                return Err(requires_value("--output"));
            },
            FlagHit::Value(v, n) => {
                cli.output_path = Some(v);
                assert(cli_step(av, i0, st0) == Step::Next(cli@, n as nat));
                i += n;
                continue;
            },
            FlagHit::NoMatch => {},
        }
        let mut m = chars_of("unknown argument: ");
        crate::text::append_vec(&mut m, &a);
        assert(cli_step(av, i0, st0) == Step::Fail("unknown argument: "@ + a@));
        return Err(string_of(&m));
    }
    if cli.providers.len() == 0 {
        return Err(lit("at least one provider is required"));
    }
    Ok(ParsedArgs::Run(cli))
}

// ---------------------------------------------------------------------------
// Benchmark options
// ---------------------------------------------------------------------------

/// The filter entries that name no task, ignoring ASCII case.
pub open spec fn unknown_tasks(filter: Seq<Seq<char>>, known: Seq<Seq<char>>) -> Seq<Seq<char>>
    decreases filter.len(),
{
    if filter.len() == 0 {
        filter
    } else {
        let init = unknown_tasks(filter.drop_last(), known);
        if exists|k: int| 0 <= k < known.len() && #[trigger] eq_ignore_case(known[k], filter.last()) {
            init
        } else {
            init.push(filter.last())
        }
    }
}

pub open spec fn task_ids(ts: Seq<crate::bench::agentic_coding::CodingTaskView>) -> Seq<Seq<char>> {
    Seq::new(ts.len(), |i: int| ts[i].task_id)
}

/// A task filter must name known tasks only.
pub open spec fn task_filter_check(filter: Seq<Seq<char>>) -> Result<(), Seq<char>> {
    let unknown = unknown_tasks(filter, task_ids(coding_task_table()));
    if unknown.len() == 0 {
        Ok(())
    } else {
        Err("unknown task ids: "@ + join(unknown, ", "@) + ". Use --list-tasks to inspect available tasks."@)
    }
}

/// Checks that every entry of the filter names a task, ignoring ASCII case.
pub fn validate_task_filter(task_filter: &Vec<String>) -> (r: Result<(), String>)
    ensures
        match task_filter_check(views(task_filter@)) {
            Ok(()) => r is Ok,
            Err(m) => r matches Err(e) && e@ == m,
        },
{
    let tasks = build_task_descriptors();
    let mut known: Vec<Vec<char>> = Vec::new();
    let mut j: usize = 0;
    while j < tasks.len()
        invariant
            j <= tasks.len(),
            tasks@.len() == coding_task_table().len(),
            forall|q: int| 0 <= q < tasks@.len() ==> #[trigger] tasks@[q]@ == coding_task_table()[q],
            known@.len() == j,
            forall|q: int| 0 <= q < j ==> #[trigger] known@[q]@ == task_ids(coding_task_table())[q],
        decreases tasks.len() - j,
    {
        let ghost prev = known@;
        known.push(chars_of(tasks[j].task_id.as_str()));
        assert(tasks@[j as int]@.task_id == tasks@[j as int].task_id@);
        assert(task_ids(coding_task_table())[j as int] == coding_task_table()[j as int].task_id);
        assert(forall|q: int| 0 <= q < j ==> known@[q] == prev[q]);
        j += 1;
    }
    let ghost kv = task_ids(coding_task_table());
    assert(views_v(known@) =~= kv);
    let ghost fv = views(task_filter@);
    let mut unknown: Vec<Vec<char>> = Vec::new();
    let mut i: usize = 0;
    assert(fv.take(0) =~= Seq::<Seq<char>>::empty());
    while i < task_filter.len()
        invariant
            i <= task_filter.len(),
            fv == views(task_filter@),
            views_v(known@) == kv,
            views_v(unknown@) == unknown_tasks(fv.take(i as int), kv),
        decreases task_filter.len() - i,
    {
        assert(fv.take(i + 1).drop_last() =~= fv.take(i as int));
        assert(fv.take(i + 1).last() == task_filter@[i as int]@);
        let t = chars_of(task_filter[i].as_str());
        let mut found = false;
        let mut k: usize = 0;
        while k < known.len()
            invariant
                k <= known.len(),
                views_v(known@) == kv,
                found == exists|q: int| 0 <= q < k && #[trigger] eq_ignore_case(kv[q], t@),
            decreases known.len() - k,
        {
            if eq_ignore_case_vec(&known[k], &t) {
                found = true;
            }
            proof {
                assert(kv[k as int] == known@[k as int]@);
                if found {
                    let w = choose|q: int| 0 <= q < k + 1 && #[trigger] eq_ignore_case(kv[q], t@);
                }
            }
            k += 1;
        }
        if !found {
            let ghost prev = unknown@;
            unknown.push(t);
            assert(views_v(unknown@) =~= views_v(prev).push(t@));
        }
        i += 1;
    }
    assert(fv.take(task_filter.len() as int) =~= fv);
    if unknown.len() == 0 {
        return Ok(());
    }
    let mut m = chars_of("unknown task ids: ");
    crate::text::append_vec(&mut m, &join_vec(&unknown, &chars_of(", ")));
    append_str(&mut m, ". Use --list-tasks to inspect available tasks.");
    Err(string_of(&m))
}

/// The checks made before the API key file is read: a key file serves one
/// provider only, and the task filter must name known tasks.
pub open spec fn options_check(cli: CliView) -> Result<(), Seq<char>> {
    if cli.api_key_file is Some && cli.providers.len() != 1 {
        Err("--api-key-file only supports a single selected provider"@)
    } else {
        task_filter_check(cli.task_filter)
    }
}

pub fn check_bench_options(cli: &CliOptions) -> (r: Result<(), String>)
    ensures
        match options_check(cli@) {
            Ok(()) => r is Ok,
            Err(m) => r matches Err(e) && e@ == m,
        },
{
    if cli.api_key_file.is_some() && cli.providers.len() != 1 {
        return Err(lit("--api-key-file only supports a single selected provider"));
    }
    validate_task_filter(&cli.task_filter)
}

/// The text of an API key file, trimmed; a blank file is refused with a
/// message that names it.
pub open spec fn api_key_of_file(path: Seq<char>, raw: Seq<char>) -> Result<Seq<char>, Seq<char>> {
    if trim(raw).len() == 0 {
        Err("API key file '"@ + path + "' is empty"@)
    } else {
        Ok(trim(raw))
    }
}

pub fn api_key_from_file_text(path: &str, raw: &str) -> (r: Result<String, String>)
    ensures
        match api_key_of_file(path@, raw@) {
            Ok(k) => r matches Ok(x) && x@ == k,
            Err(m) => r matches Err(e) && e@ == m,
        },
{
    let t = trimmed(raw);
    if t.len() == 0 {
        let mut m = chars_of("API key file '");
        append_str(&mut m, path);
        append_str(&mut m, "' is empty");
        return Err(string_of(&m));
    }
    Ok(string_of(&t))
}

/// The model used for a provider when none is given: MiniMax's M2.1 model,
/// and none (the provider's own default) for the others.
pub open spec fn default_model_of(p: LlmProviderId) -> Option<Seq<char>> {
    match p {
        LlmProviderId::MiniMax => Some("MiniMax-M2.1"@),
        _ => None,
    }
}

pub fn default_model_for_provider(provider: LlmProviderId) -> (r: Option<String>)
    ensures
        opt_view(r) == default_model_of(provider),
{
    match provider {
        LlmProviderId::MiniMax => Some(lit("MiniMax-M2.1")),
        _ => None,
    }
}

pub open spec fn or_else(a: Option<Seq<char>>, b: Option<Seq<char>>) -> Option<Seq<char>> {
    match a {
        Some(x) => Some(x),
        None => b,
    }
}

pub(crate) fn ov_lookup(m: &Vec<(LlmProviderId, String)>, k: LlmProviderId) -> (r: Option<String>)
    ensures
        opt_view(r) == ov_get(ov_views(m@), k),
{
    let ghost mv = ov_views(m@);
    let mut i: usize = 0;
    assert(mv.skip(0) =~= mv);
    while i < m.len()
        invariant
            i <= m.len(),
            mv == ov_views(m@),
            ov_get(mv, k) == ov_get(mv.skip(i as int), k),
        decreases m.len() - i,
    {
        assert(mv.skip(i as int).drop_first() =~= mv.skip(i + 1));
        if m[i].0 == k {
            return Some(copy_string(&m[i].1));
        }
        i += 1;
    }
    assert(mv.skip(m.len() as int) =~= Seq::<(LlmProviderId, Seq<char>)>::empty());
    None
}

/// The benchmark options of checked command-line options, with the API key
/// read from the key file when one was given: one configuration per selected
/// provider, carrying its overrides (the model falling back to the default
/// model), the key and the token cap.
pub fn build_bench_options(cli: &CliOptions, file_api_key: Option<String>) -> (r: AgenticCodingBenchOptions)
    ensures
        r.providers@ == cli@.providers,
        r.max_tokens == cli.max_tokens,
        r.timeout_seconds == cli.timeout_seconds,
        views(r.task_filter@) == cli@.task_filter,
        opt_view(r.scratch_root) == cli@.scratch_root,
        r.retain_failed_workspaces == cli.retain_failed_workspaces,
        r.provider_configs@.len() == cli@.providers.len(),
        forall|i: int| 0 <= i < r.provider_configs@.len() ==> {
            let c = #[trigger] r.provider_configs@[i];
            let p = cli@.providers[i];
            &&& c.provider == p
            &&& opt_view(c.api_key) == opt_view(file_api_key)
            &&& opt_view(c.model) == or_else(ov_get(cli@.model_overrides, p), default_model_of(p))
            &&& opt_view(c.base_url) == ov_get(cli@.base_url_overrides, p)
            &&& c.max_tokens == Some(cli.max_tokens)
        },
{
    let mut configs: Vec<LlmProviderConfig> = Vec::new();
    let mut i: usize = 0;
    while i < cli.providers.len()
        invariant
            i <= cli.providers.len(),
            configs@.len() == i,
            forall|q: int| 0 <= q < i ==> {
                let c = #[trigger] configs@[q];
                let p = cli@.providers[q];
                &&& c.provider == p
                &&& opt_view(c.api_key) == opt_view(file_api_key)
                &&& opt_view(c.model) == or_else(ov_get(cli@.model_overrides, p), default_model_of(p))
                &&& opt_view(c.base_url) == ov_get(cli@.base_url_overrides, p)
                &&& c.max_tokens == Some(cli.max_tokens)
            },
        decreases cli.providers.len() - i,
    {
        let p = cli.providers[i];
        let model = match ov_lookup(&cli.model_overrides, p) {
            Some(m) => Some(m),
            None => default_model_for_provider(p),
        };
        let key = match &file_api_key {
            Some(k) => Some(copy_string(k)),
            None => None,
        };
        configs.push(LlmProviderConfig {
            provider: p,
            api_key: key,
            model,
            base_url: ov_lookup(&cli.base_url_overrides, p),
            max_tokens: Some(cli.max_tokens),
        });
        i += 1;
    }
    let mut providers: Vec<LlmProviderId> = Vec::new();
    let mut k: usize = 0;
    while k < cli.providers.len()
        invariant
            k <= cli.providers.len(),
            providers@ == cli.providers@.take(k as int),
        decreases cli.providers.len() - k,
    {
        providers.push(cli.providers[k]);
        assert(cli.providers@.take(k + 1) =~= cli.providers@.take(k as int).push(cli.providers@[k as int]));
        k += 1;
    }
    assert(cli.providers@.take(cli.providers.len() as int) =~= cli.providers@);
    let scratch_root = match &cli.scratch_root {
        Some(s) => Some(copy_string(s)),
        None => None,
    };
    AgenticCodingBenchOptions {
        providers,
        provider_configs: configs,
        max_tokens: cli.max_tokens,
        timeout_seconds: cli.timeout_seconds,
        task_filter: copy_strings(&cli.task_filter),
        scratch_root,
        retain_failed_workspaces: cli.retain_failed_workspaces,
    }
}

} // verus!
