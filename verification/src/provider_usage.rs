//! Usage and balance snapshots of the model providers: which endpoint to
//! ask for each provider, and what its JSON reply says.
//!
//! Loading the provider's configuration, the HTTP request and the JSON
//! parsing are the caller's business.
use vstd::prelude::*;

use crate::json_value::{find_key, find_key_recursive, get, get_key, JsonNumber, JsonValue};
use crate::text::{
    append_str, append_vec, chars_of, decimal, decimal_vec, lit, opt_view, str_eq, string_of,
    trim, trim_matches, trim_matches_vec, trimmed, upper_char, views,
};

verus! {

// ---------------------------------------------------------------------------
// Reading replies
// ---------------------------------------------------------------------------

/// A value given as text: a non-blank string, a number or a boolean.
pub open spec fn text_of(v: JsonValue) -> Option<Seq<char>> {
    match v {
        JsonValue::String(s) => if trim(s@).len() > 0 {
            Some(s@)
        } else {
            None
        },
        JsonValue::Number(n) => Some(n.text@),
        JsonValue::Bool(b) => Some(
            if b {
                "true"@
            } else {
                "false"@
            },
        ),
        _ => None,
    }
}

/// The first of the keys whose value (found at any depth) reads as text.
pub open spec fn pick_text(v: JsonValue, keys: Seq<Seq<char>>) -> Option<Seq<char>>
    decreases keys.len(),
{
    if keys.len() == 0 {
        None
    } else {
        match find_key(v, keys[0]) {
            Some(f) => match text_of(f) {
                Some(t) => Some(t),
                None => pick_text(v, keys.drop_first()),
            },
            None => pick_text(v, keys.drop_first()),
        }
    }
}

fn text_of_value(v: &JsonValue) -> (r: Option<String>)
    ensures
        opt_view(r) == text_of(*v),
{
    match v {
        JsonValue::String(s) => if trimmed(s.as_str()).len() > 0 {
            Some(s.clone())
        } else {
            None
        },
        JsonValue::Number(n) => Some(n.text.clone()),
        JsonValue::Bool(b) => Some(if *b { lit("true") } else { lit("false") }),
        _ => None,
    }
}

pub open spec fn key_views(keys: Seq<&str>) -> Seq<Seq<char>> {
    Seq::new(keys.len(), |i: int| keys[i]@)
}

/// The first of `keys` whose value reads as text (see `pick_text`).
pub fn pick_stringish(value: &JsonValue, keys: &Vec<&str>) -> (r: Option<String>)
    ensures
        opt_view(r) == pick_text(*value, key_views(keys@)),
{
    let ghost kv = key_views(keys@);
    let mut i: usize = 0;
    assert(kv.skip(0) =~= kv);
    while i < keys.len()
        invariant
            i <= keys.len(),
            kv == key_views(keys@),
            pick_text(*value, kv) == pick_text(*value, kv.skip(i as int)),
        decreases keys.len() - i,
    {
        assert(kv.skip(i as int).drop_first() =~= kv.skip(i + 1));
        assert(kv.skip(i as int)[0] == keys@[i as int]@);
        if let Some(found) = find_key_recursive(value, &chars_of(keys[i])) {
            if let Some(t) = text_of_value(found) {
                return Some(t);
            }
        }
        i += 1;
    }
    assert(kv.skip(keys.len() as int) =~= Seq::<Seq<char>>::empty());
    None
}

pub open spec fn upper_ascii(s: Seq<char>) -> Seq<char> {
    Seq::new(s.len(), |i: int| upper_char(s[i]))
}

/// The `type` of a limit, in ASCII upper case (empty when it has none).
pub open spec fn limit_kind(item: JsonValue) -> Seq<char> {
    match get_key(item, "type"@) {
        Some(JsonValue::String(s)) => upper_ascii(s@),
        _ => Seq::empty(),
    }
}

pub open spec fn percentage_text(p: JsonValue) -> Option<Seq<char>> {
    match p {
        JsonValue::String(s) => Some(s@),
        JsonValue::Number(n) => Some(n.text@),
        _ => None,
    }
}

/// The percentage of the first token limit that has one.
pub open spec fn quota_in(items: Seq<JsonValue>) -> Option<Seq<char>>
    decreases items.len(),
{
    if items.len() == 0 {
        None
    } else if limit_kind(items[0]) == "TOKENS_LIMIT"@ && get_key(items[0], "percentage"@) is Some {
        percentage_text(get_key(items[0], "percentage"@).unwrap())
    } else {
        quota_in(items.drop_first())
    }
}

/// A limits item whose type, in ASCII upper case, is `TOKENS_LIMIT` and
/// which carries a percentage.
pub open spec fn token_limit_with_percentage(item: JsonValue) -> bool {
    &&& get_key(item, "type"@) matches Some(JsonValue::String(t))
    &&& upper_ascii(t@) == "TOKENS_LIMIT"@
    &&& get_key(item, "percentage"@) is Some
}

proof fn lemma_token_limit_test(item: JsonValue)
    ensures
        token_limit_with_percentage(item) == (limit_kind(item) == "TOKENS_LIMIT"@ && get_key(
            item,
            "percentage"@,
        ) is Some),
{
    reveal_strlit("TOKENS_LIMIT");
    if !(get_key(item, "type"@) matches Some(JsonValue::String(_))) {
        assert(limit_kind(item).len() == 0);
    }
}

proof fn lemma_quota_none(items: Seq<JsonValue>)
    requires
        forall|i: int| 0 <= i < items.len() ==> !token_limit_with_percentage(#[trigger] items[i]),
    ensures
        quota_in(items) is None,
    decreases items.len(),
{
    if items.len() > 0 {
        let rest = items.drop_first();
        lemma_token_limit_test(items[0]);
        assert forall|i: int| 0 <= i < rest.len() implies !token_limit_with_percentage(#[trigger] rest[i]) by {
            assert(rest[i] == items[i + 1]);
        }
        lemma_quota_none(rest);
    }
}

proof fn lemma_quota_first(items: Seq<JsonValue>, i: int)
    requires
        0 <= i < items.len(),
        token_limit_with_percentage(items[i]),
        forall|j: int| 0 <= j < i ==> !token_limit_with_percentage(#[trigger] items[j]),
    ensures
        quota_in(items) == percentage_text(get_key(items[i], "percentage"@)->0),
    decreases i,
{
    lemma_token_limit_test(items[0]);
    if i > 0 {
        let rest = items.drop_first();
        assert(!token_limit_with_percentage(items[0]));
        assert(rest[i - 1] == items[i]);
        assert forall|j: int| 0 <= j < i - 1 implies !token_limit_with_percentage(#[trigger] rest[j]) by {
            assert(rest[j] == items[j + 1]);
        }
        lemma_quota_first(rest, i - 1);
    }
}

/// The quota comes from the first `TOKENS_LIMIT` item that carries a
/// percentage, and from no other item: items of other types, such as
/// `TIME_LIMIT`, are passed over; where no such item exists there is none.
pub proof fn law_quota_from_first_token_limit(items: Seq<JsonValue>)
    ensures
        (forall|i: int| 0 <= i < items.len() ==> !token_limit_with_percentage(#[trigger] items[i]))
            ==> quota_in(items) is None,
        forall|i: int|
            0 <= i < items.len() && token_limit_with_percentage(#[trigger] items[i]) && (forall|j: int|
                0 <= j < i ==> !token_limit_with_percentage(#[trigger] items[j])) ==> quota_in(items)
                == percentage_text(get_key(items[i], "percentage"@)->0),
{
    if forall|i: int| 0 <= i < items.len() ==> !token_limit_with_percentage(#[trigger] items[i]) {
        lemma_quota_none(items);
    }
    assert forall|i: int|
        0 <= i < items.len() && token_limit_with_percentage(#[trigger] items[i]) && (forall|j: int|
            0 <= j < i ==> !token_limit_with_percentage(#[trigger] items[j])) implies quota_in(items)
            == percentage_text(get_key(items[i], "percentage"@)->0) by {
        lemma_quota_first(items, i);
    }
}

/// The token-limit percentage of a Z.AI quota reply.
pub open spec fn quota_percentage(v: JsonValue) -> Option<Seq<char>> {
    match find_key(v, "limits"@) {
        Some(JsonValue::Array(items)) => quota_in(items@),
        _ => None,
    }
}

fn upper_ascii_vec(v: &Vec<char>) -> (r: Vec<char>)
    ensures
        r@ == upper_ascii(v@),
{
    let mut out: Vec<char> = Vec::new();
    let mut i: usize = 0;
    while i < v.len()
        invariant
            i <= v.len(),
            out@ =~= upper_ascii(v@).take(i as int),
        decreases v.len() - i,
    {
        out.push(crate::text::to_upper_char(v[i]));
        i += 1;
    }
    out
}

pub fn pick_quota_percentage(value: &JsonValue) -> (r: Option<String>)
    ensures
        opt_view(r) == quota_percentage(*value),
{
    let limits = match find_key_recursive(value, &chars_of("limits")) {
        Some(JsonValue::Array(items)) => items,
        _ => {
            return None;
        },
    };
    let ghost iv = limits@;
    let mut i: usize = 0;
    assert(iv.skip(0) =~= iv);
    while i < limits.len()
        invariant
            i <= limits.len(),
            iv == limits@,
            quota_percentage(*value) == quota_in(iv),
            quota_in(iv) == quota_in(iv.skip(i as int)),
        decreases limits.len() - i,
    {
        assert(iv.skip(i as int).drop_first() =~= iv.skip(i + 1));
        assert(iv.skip(i as int)[0] == iv[i as int]);
        let item = &limits[i];
        let kind = match get(item, &chars_of("type")) {
            Some(JsonValue::String(s)) => upper_ascii_vec(&chars_of(s.as_str())),
            _ => Vec::new(),
        };
        assert(kind@ == limit_kind(iv[i as int])) by {
            if !(get_key(iv[i as int], "type"@) matches Some(JsonValue::String(_))) {
                assert(kind@ =~= Seq::<char>::empty());
            }
        }
        if str_eq("TOKENS_LIMIT", &kind) {
            if let Some(p) = get(item, &chars_of("percentage")) {
                assert(get_key(iv[i as int], "percentage"@) == Some(*p));
                assert(quota_in(iv.skip(i as int)) == percentage_text(*p));
                let out = match p {
                    JsonValue::String(s) => Some(s.clone()),
                    JsonValue::Number(n) => Some(n.text.clone()),
                    _ => None,
                };
                return out;
            }
        }
        i += 1;
    }
    assert(iv.skip(limits.len() as int) =~= Seq::<JsonValue>::empty());
    None
}

/// An integer value, when there is one.
pub open spec fn int_of(o: Option<JsonValue>) -> Option<int> {
    match o {
        Some(JsonValue::Number(n)) => match n.int {
            Some(i) => Some(i as int),
            None => None,
        },
        _ => None,
    }
}

/// The prompts left of one model: its interval's total less its usage, at
/// least 0, when both counts are integers.
pub open spec fn model_left(item: JsonValue) -> Option<int> {
    match (
        int_of(get_key(item, "current_interval_total_count"@)),
        int_of(get_key(item, "current_interval_usage_count"@)),
    ) {
        (Some(t), Some(u)) => Some(if t - u > 0 { t - u } else { 0 }),
        _ => None,
    }
}

/// The prompts left over the models that report both counts, and how many
/// do.
pub open spec fn models_left(items: Seq<JsonValue>) -> (int, nat)
    decreases items.len(),
{
    if items.len() == 0 {
        (0, 0)
    } else {
        let (s, c) = models_left(items.drop_last());
        match model_left(items.last()) {
            Some(l) => (s + l, c + 1),
            None => (s, c),
        }
    }
}

/// What the arithmetic of the reading needs: each total less its usage,
/// the running sum and the count fit their machine integers.
pub open spec fn models_fit(items: Seq<JsonValue>) -> bool {
    &&& forall|i: int| 0 <= i < items.len() ==> match (
        int_of(get_key(#[trigger] items[i], "current_interval_total_count"@)),
        int_of(get_key(items[i], "current_interval_usage_count"@)),
    ) {
        (Some(t), Some(u)) => i64::MIN <= t - u <= i64::MAX,
        _ => true,
    }
    &&& models_left(items).0 <= i64::MAX
    &&& models_left(items).1 <= i32::MAX
}

/// The prompts left on a MiniMax Coding Plan reply, as `<n> prompts`.
pub open spec fn model_remains(v: JsonValue) -> Option<Seq<char>> {
    match find_key(v, "model_remains"@) {
        Some(JsonValue::Array(items)) => if models_left(items@).1 > 0 {
            Some(decimal(models_left(items@).0 as nat) + " prompts"@)
        } else {
            None
        },
        _ => None,
    }
}

pub open spec fn remains_fit(v: JsonValue) -> bool {
    match find_key(v, "model_remains"@) {
        Some(JsonValue::Array(items)) => models_fit(items@),
        _ => true,
    }
}

proof fn lemma_models_left_mono(items: Seq<JsonValue>, k: int)
    requires
        0 <= k <= items.len(),
    ensures
        0 <= models_left(items.take(k)).0 <= models_left(items).0,
        models_left(items.take(k)).1 <= models_left(items).1,
    decreases items.len() - k,
{
    if k < items.len() {
        lemma_models_left_mono(items, k + 1);
        assert(items.take(k + 1).drop_last() =~= items.take(k));
    } else {
        assert(items.take(k) =~= items);
    }
    lemma_models_left_nonneg(items.take(k));
}

proof fn lemma_models_left_nonneg(items: Seq<JsonValue>)
    ensures
        models_left(items).0 >= 0,
    decreases items.len(),
{
    if items.len() > 0 {
        lemma_models_left_nonneg(items.drop_last());
    }
}

fn int_value(o: Option<&JsonValue>) -> (r: Option<i64>)
    ensures
        int_of(
            match o {
                Some(x) => Some(*x),
                None => None,
            },
        ) == match r {
            Some(i) => Some(i as int),
            None => None::<int>,
        },
{
    match o {
        Some(JsonValue::Number(n)) => n.int,
        _ => None,
    }
}

pub fn pick_minimax_model_remains(value: &JsonValue) -> (r: Option<String>)
    requires
        remains_fit(*value),
    ensures
        opt_view(r) == model_remains(*value),
{
    let models = match find_key_recursive(value, &chars_of("model_remains")) {
        Some(JsonValue::Array(items)) => items,
        _ => {
            return None;
        },
    };
    let ghost iv = models@;
    let mut total_remaining: i64 = 0;
    let mut counted: i32 = 0;
    let mut i: usize = 0;
    assert(iv.take(0) =~= Seq::<JsonValue>::empty());
    while i < models.len()
        invariant
            i <= models.len(),
            iv == models@,
            models_fit(iv),
            counted >= 0,
            (total_remaining as int, counted as nat) == models_left(iv.take(i as int)),
        decreases models.len() - i,
    {
        proof {
            assert(iv.take(i + 1).drop_last() =~= iv.take(i as int));
            assert(iv.take(i + 1).last() == iv[i as int]);
            lemma_models_left_mono(iv, i + 1);
        }
        let item = &models[i];
        let total = int_value(get(item, &chars_of("current_interval_total_count")));
        let used = int_value(get(item, &chars_of("current_interval_usage_count")));
        assert(int_of(get_key(iv[i as int], "current_interval_total_count"@)) == match total {
            Some(t) => Some(t as int),
            None => None::<int>,
        });
        assert(int_of(get_key(iv[i as int], "current_interval_usage_count"@)) == match used {
            Some(t) => Some(t as int),
            None => None::<int>,
        });
        if let (Some(t), Some(u)) = (total, used) {
            assert(i64::MIN <= t - u <= i64::MAX) by {
                assert(match (
                    int_of(get_key(iv[i as int], "current_interval_total_count"@)),
                    int_of(get_key(iv[i as int], "current_interval_usage_count"@)),
                ) {
                    (Some(t), Some(u)) => i64::MIN <= t - u <= i64::MAX,
                    _ => true,
                });
            }
            let d = t - u;
            let remaining = if d > 0 { d } else { 0 };
            total_remaining = total_remaining + remaining;
            counted = counted + 1;
        }
        i += 1;
    }
    assert(iv.take(models.len() as int) =~= iv);
    if counted > 0 {
        proof {
            lemma_models_left_nonneg(iv);
        }
        let mut t = decimal_vec(total_remaining as u64);
        append_str(&mut t, " prompts");
        Some(string_of(&t))
    } else {
        None
    }
}

/// Whether the prompts left on a reply can be summed in machine integers
/// (`remains_fit`).
pub fn remains_fit_check(value: &JsonValue) -> (r: bool)
    ensures
        r == remains_fit(*value),
{
    let models = match find_key_recursive(value, &chars_of("model_remains")) {
        Some(JsonValue::Array(items)) => items,
        _ => {
            return true;
        },
    };
    let ghost iv = models@;
    let mut sum: i128 = 0;
    let mut counted: u64 = 0;
    let mut i: usize = 0;
    assert(iv.take(0) =~= Seq::<JsonValue>::empty());
    while i < models.len()
        invariant
            i <= models.len(),
            iv == models@,
            remains_fit(*value) == models_fit(iv),
            (sum as int, counted as nat) == models_left(iv.take(i as int)),
            0 <= sum <= i64::MAX,
            counted <= i32::MAX,
            forall|k: int| 0 <= k < i ==> match (
                int_of(get_key(#[trigger] iv[k], "current_interval_total_count"@)),
                int_of(get_key(iv[k], "current_interval_usage_count"@)),
            ) {
                (Some(t), Some(u)) => i64::MIN <= t - u <= i64::MAX,
                _ => true,
            },
        decreases models.len() - i,
    {
        proof {
            assert(iv.take(i + 1).drop_last() =~= iv.take(i as int));
            assert(iv.take(i + 1).last() == iv[i as int]);
            lemma_models_left_mono(iv, i + 1);
        }
        let item = &models[i];
        let total = int_value(get(item, &chars_of("current_interval_total_count")));
        let used = int_value(get(item, &chars_of("current_interval_usage_count")));
        assert(int_of(get_key(iv[i as int], "current_interval_total_count"@)) == match total {
            Some(t) => Some(t as int),
            None => None::<int>,
        });
        assert(int_of(get_key(iv[i as int], "current_interval_usage_count"@)) == match used {
            Some(t) => Some(t as int),
            None => None::<int>,
        });
        if let (Some(t), Some(u)) = (total, used) {
            assert(model_left(iv[i as int]) == Some(if t - u > 0 { t - u } else { 0 }));
            let d: i128 = (t as i128) - (u as i128);
            if d < (i64::MIN as i128) || d > (i64::MAX as i128) {
                assert(!(i64::MIN <= t - u <= i64::MAX));
                assert(!models_fit(iv));
                return false;
            }
            let remaining: i128 = if d > 0 { d } else { 0 };
            if sum + remaining > (i64::MAX as i128) || counted + 1 > (i32::MAX as u64) {
                assert(models_left(iv.take(i + 1)).0 == sum + remaining && models_left(iv.take(i + 1)).1 == counted + 1);
                assert(!models_fit(iv));
                return false;
            }
            sum = sum + remaining;
            counted = counted + 1;
        }
        i += 1;
    }
    assert(iv.take(models.len() as int) =~= iv);
    true
}

/// The prompts left on a MiniMax reply, where they can be summed; `None`
/// where `remains_fit` fails.
pub fn pick_minimax_model_remains_checked(value: &JsonValue) -> (r: Option<Option<String>>)
    ensures
        r is None <==> !remains_fit(*value),
        r matches Some(x) ==> opt_view(x) == model_remains(*value),
{
    if remains_fit_check(value) {
        Some(pick_minimax_model_remains(value))
    } else {
        None
    }
}

/// The length of the array under `key`, found at any depth; 0 when there
/// is none.
pub open spec fn array_len_of(v: JsonValue, key: Seq<char>) -> nat {
    match find_key(v, key) {
        Some(JsonValue::Array(items)) => items@.len(),
        _ => 0,
    }
}

fn array_len(value: &JsonValue, key: &str) -> (r: usize)
    ensures
        r == array_len_of(*value, key@),
{
    match find_key_recursive(value, &chars_of(key)) {
        Some(JsonValue::Array(items)) => items.len(),
        _ => 0,
    }
}

// ---------------------------------------------------------------------------
// Snapshots
// ---------------------------------------------------------------------------

/// What is known of a provider's usage or balance.
#[derive(Debug)]
pub struct ProviderUsageSnapshotView {
    pub provider: String,
    pub available: bool,
    pub status: String,
    pub balance: Option<String>,
    pub currency: Option<String>,
    pub remaining_quota: Option<String>,
    pub period: Option<String>,
    pub last_updated_at: Option<String>,
    pub note: Option<String>,
    pub error: Option<String>,
}

pub struct SnapshotModel {
    pub provider: Seq<char>,
    pub available: bool,
    pub status: Seq<char>,
    pub balance: Option<Seq<char>>,
    pub currency: Option<Seq<char>>,
    pub remaining_quota: Option<Seq<char>>,
    pub period: Option<Seq<char>>,
    pub last_updated_at: Option<Seq<char>>,
    pub note: Option<Seq<char>>,
    pub error: Option<Seq<char>>,
}

impl View for ProviderUsageSnapshotView {
    type V = SnapshotModel;

    open spec fn view(&self) -> SnapshotModel {
        SnapshotModel {
            provider: self.provider@,
            available: self.available,
            status: self.status@,
            balance: opt_view(self.balance),
            currency: opt_view(self.currency),
            remaining_quota: opt_view(self.remaining_quota),
            period: opt_view(self.period),
            last_updated_at: opt_view(self.last_updated_at),
            note: opt_view(self.note),
            error: opt_view(self.error),
        }
    }
}

/// A snapshot of a provider that reported nothing: not available, with the
/// status, the time and the note given.
pub open spec fn bare_snapshot(provider: Seq<char>, status: Seq<char>, now: Option<Seq<char>>, note: Option<Seq<char>>, error: Option<Seq<char>>) -> SnapshotModel {
    SnapshotModel {
        provider: provider,
        available: false,
        status: status,
        balance: None,
        currency: None,
        remaining_quota: None,
        period: None,
        last_updated_at: now,
        note: note,
        error: error,
    }
}

fn bare(provider: &str, status: &str, now: Option<String>, note: Option<String>, error: Option<String>) -> (r: ProviderUsageSnapshotView)
    ensures
        r@ == bare_snapshot(provider@, status@, opt_view(now), opt_view(note), opt_view(error)),
{
    ProviderUsageSnapshotView {
        provider: lit(provider),
        available: false,
        status: lit(status),
        balance: None,
        currency: None,
        remaining_quota: None,
        period: None,
        last_updated_at: now,
        note,
        error,
    }
}

/// The snapshot of a provider without a configuration.
pub fn not_configured_snapshot(provider: &str, now: &str) -> (r: ProviderUsageSnapshotView)
    ensures
        r@ == bare_snapshot(provider@, "not_configured"@, Some(now@), Some("Provider is not configured"@), None),
{
    bare(provider, "not_configured", Some(lit(now)), Some(lit("Provider is not configured")), None)
}

/// The snapshot of a provider whose usage is not tracked.
pub fn unsupported_snapshot(provider: &str, now: &str) -> (r: ProviderUsageSnapshotView)
    ensures
        r@ == bare_snapshot(
            provider@,
            "unknown_provider"@,
            Some(now@),
            Some("Provider '"@ + provider@ + "' is not supported for usage tracking"@),
            None,
        ),
{
    let mut n = chars_of("Provider '");
    append_str(&mut n, provider);
    append_str(&mut n, "' is not supported for usage tracking");
    bare(provider, "unknown_provider", Some(lit(now)), Some(string_of(&n)), None)
}

/// The snapshot of a ChatGPT account connected through OAuth, whose usage
/// the API does not report.
pub fn oauth_snapshot(provider: &str, now: &str) -> (r: ProviderUsageSnapshotView)
    ensures
        r@ == bare_snapshot(
            provider@,
            "not_applicable"@,
            Some(now@),
            Some("Connected via ChatGPT OAuth (subscription). API usage endpoint requires OpenAI API/admin key."@),
            None,
        ),
{
    bare(provider, "not_applicable", Some(lit(now)), Some(lit("Connected via ChatGPT OAuth (subscription). API usage endpoint requires OpenAI API/admin key.")), None)
}

/// The snapshot of a provider whose reading failed.
pub fn error_snapshot(provider: &str, error: &str) -> (r: ProviderUsageSnapshotView)
    ensures
        r@ == bare_snapshot(provider@, "error"@, None, None, Some(error@)),
{
    bare(provider, "error", None, None, Some(lit(error)))
}

/// Where a provider's usage is read.
#[derive(Debug, Clone, Copy, PartialEq, Eq, Structural)]
pub enum UsageSource {
    MiniMax,
    Zai,
    Kimi,
    Gemini,
    Modal,
    OpenAi,
    Unsupported,
}

pub open spec fn source_of(provider: Seq<char>) -> UsageSource {
    if provider == "minimax"@ {
        UsageSource::MiniMax
    } else if provider == "zhipu"@ || provider == "glm"@ {
        UsageSource::Zai
    } else if provider == "kimi"@ {
        UsageSource::Kimi
    } else if provider == "gemini"@ {
        UsageSource::Gemini
    } else if provider == "modal"@ {
        UsageSource::Modal
    } else if provider == "openai-chatgpt"@ || provider == "chatgpt"@ {
        UsageSource::OpenAi
    } else {
        UsageSource::Unsupported
    }
}

/// Where the usage of a provider (named exactly) is read.
pub fn usage_source(provider: &str) -> (r: UsageSource)
    ensures
        r == source_of(provider@),
{
    let p = chars_of(provider);
    if str_eq("minimax", &p) {
        UsageSource::MiniMax
    } else if str_eq("zhipu", &p) || str_eq("glm", &p) {
        UsageSource::Zai
    } else if str_eq("kimi", &p) {
        UsageSource::Kimi
    } else if str_eq("gemini", &p) {
        UsageSource::Gemini
    } else if str_eq("modal", &p) {
        UsageSource::Modal
    } else if str_eq("openai-chatgpt", &p) || str_eq("chatgpt", &p) {
        UsageSource::OpenAi
    } else {
        UsageSource::Unsupported
    }
}

/// The URL asked for a source (Modal's depends on its base URL, see
/// `modal_models_url`; Gemini's takes the key as a query parameter).
pub open spec fn source_url(s: UsageSource) -> Option<Seq<char>> {
    match s {
        UsageSource::MiniMax => Some("https://www.minimax.io/v1/api/openplatform/coding_plan/remains"@),
        UsageSource::Zai => Some("https://api.z.ai/api/monitor/usage/quota/limit"@),
        UsageSource::Kimi => Some("https://api.moonshot.ai/v1/users/me/balance"@),
        UsageSource::Gemini => Some("https://generativelanguage.googleapis.com/v1beta/models"@),
        UsageSource::OpenAi => Some("https://api.openai.com/v1/organization/usage/completions?limit=1"@),
        _ => None,
    }
}

pub fn usage_url(s: UsageSource) -> (r: Option<String>)
    ensures
        opt_view(r) == source_url(s),
{
    match s {
        UsageSource::MiniMax => Some(lit("https://www.minimax.io/v1/api/openplatform/coding_plan/remains")),
        UsageSource::Zai => Some(lit("https://api.z.ai/api/monitor/usage/quota/limit")),
        UsageSource::Kimi => Some(lit("https://api.moonshot.ai/v1/users/me/balance")),
        UsageSource::Gemini => Some(lit("https://generativelanguage.googleapis.com/v1beta/models")),
        UsageSource::OpenAi => Some(lit("https://api.openai.com/v1/organization/usage/completions?limit=1")),
        _ => None,
    }
}

/// Whether the key is sent as a bearer token (Z.AI takes it bare).
pub fn uses_bearer(s: UsageSource) -> (r: bool)
    ensures
        r == (s != UsageSource::Zai),
{
    s != UsageSource::Zai
}

/// The `Authorization` header of a request.
pub fn auth_header(api_key: &str, bearer: bool) -> (r: String)
    ensures
        r@ == if bearer {
            "Bearer "@ + api_key@
        } else {
            api_key@
        },
{
    if bearer {
        let mut h = chars_of("Bearer ");
        append_str(&mut h, api_key);
        string_of(&h)
    } else {
        lit(api_key)
    }
}

/// Modal's model list: under the configured base URL (trimmed, without
/// trailing slashes), else under its default endpoint.
pub open spec fn modal_url(base_url: Option<Seq<char>>) -> Seq<char> {
    (match base_url {
        Some(b) => crate::text::strip_char_end(trim(b), '/'),
        None => "https://api.us-west-2.modal.direct/v1"@,
    }) + "/models"@
}

pub fn modal_models_url(base_url: Option<&str>) -> (r: String)
    ensures
        r@ == modal_url(
            match base_url {
                Some(b) => Some(b@),
                None => None,
            },
        ),
{
    let mut u = match base_url {
        Some(b) => crate::text::strip_char_end_vec(&trimmed(b), '/'),
        None => chars_of("https://api.us-west-2.modal.direct/v1"),
    };
    append_str(&mut u, "/models");
    string_of(&u)
}

/// Whether a stored key is a ChatGPT OAuth payload: JSON with both an
/// access and a refresh token.  `parsed` is the key read as JSON, if it is
/// JSON.
pub fn looks_like_chatgpt_oauth_payload(parsed: &Option<JsonValue>) -> (r: bool)
    ensures
        r == match parsed {
            Some(v) => get_key(*v, "access_token"@) is Some && get_key(*v, "refresh_token"@) is Some,
            None => false,
        },
{
    match parsed {
        Some(v) => get(v, &chars_of("access_token")).is_some() && get(v, &chars_of("refresh_token")).is_some(),
        None => false,
    }
}

pub open spec fn minimax_keys() -> Seq<Seq<char>> {
    seq!["remains"@, "remain"@, "remaining"@, "remaining_quota"@, "remain_prompt"@, "remaining_prompts"@, "prompt_remains"@]
}

pub open spec fn opt_or(a: Option<Seq<char>>, b: Option<Seq<char>>) -> Option<Seq<char>> {
    match a {
        Some(x) => Some(x),
        None => b,
    }
}

/// A snapshot read from a reply: available when `value` is there.
pub open spec fn read_snapshot(
    provider: Seq<char>,
    value: Option<Seq<char>>,
    balance_side: bool,
    currency: Option<Seq<char>>,
    period: Option<Seq<char>>,
    now: Seq<char>,
    note: Seq<char>,
) -> SnapshotModel {
    SnapshotModel {
        provider: provider,
        available: value is Some,
        status: "ok"@,
        balance: if balance_side { value } else { None },
        currency: currency,
        remaining_quota: if balance_side { None } else { value },
        period: period,
        last_updated_at: Some(now),
        note: Some(note),
        error: None,
    }
}

/// What a source's reply says.
pub open spec fn reply_snapshot(s: UsageSource, provider: Seq<char>, v: JsonValue, now: Seq<char>) -> SnapshotModel {
    match s {
        UsageSource::MiniMax => read_snapshot(
            provider,
            opt_or(pick_text(v, minimax_keys()), model_remains(v)),
            false,
            None,
            Some("5h rolling window"@),
            now,
            "Fetched from MiniMax Coding Plan remains endpoint"@,
        ),
        UsageSource::Zai => read_snapshot(
            provider,
            match quota_percentage(v) {
                Some(p) => Some(p + "%"@),
                None => None,
            },
            false,
            None,
            Some("Coding Plan limits"@),
            now,
            "Fetched from Z.AI monitor usage endpoint"@,
        ),
        UsageSource::Kimi => read_snapshot(
            provider,
            pick_text(v, seq!["available_balance"@, "balance"@, "total_balance"@, "remaining_balance"@]),
            true,
            pick_text(v, seq!["currency"@, "unit"@]),
            None,
            now,
            "Fetched from Moonshot balance endpoint"@,
        ),
        UsageSource::OpenAi => read_snapshot(
            provider,
            pick_text(v, seq!["total_tokens"@, "input_tokens"@, "output_tokens"@, "num_model_requests"@]),
            false,
            None,
            Some("organization usage"@),
            now,
            "Fetched from OpenAI usage API"@,
        ),
        UsageSource::Modal => SnapshotModel {
            available: true,
            ..read_snapshot(
                provider,
                Some(decimal(array_len_of(v, "data"@)) + " model(s)"@),
                false,
                None,
                None,
                now,
                "Modal does not expose balance via API; showing API key health via /models"@,
            )
        },
        _ => SnapshotModel {
            available: true,
            ..read_snapshot(
                provider,
                Some(decimal(array_len_of(v, "models"@)) + " model(s)"@),
                false,
                None,
                None,
                now,
                "Gemini balance is managed in Google AI Studio/Cloud Console; showing API key health via /models"@,
            )
        },
    }
}

fn read(provider: &str, value: Option<String>, balance_side: bool, currency: Option<String>, period: Option<&str>, now: &str, note: &str) -> (r: ProviderUsageSnapshotView)
    ensures
        r@ == read_snapshot(provider@, opt_view(value), balance_side, opt_view(currency), match period {
            Some(p) => Some(p@),
            None => None,
        }, now@, note@),
{
    let available = value.is_some();
    let (balance, remaining_quota) = if balance_side { (value, None) } else { (None, value) };
    ProviderUsageSnapshotView {
        provider: lit(provider),
        available,
        status: lit("ok"),
        balance,
        currency,
        remaining_quota,
        period: match period {
            Some(p) => Some(lit(p)),
            None => None,
        },
        last_updated_at: Some(lit(now)),
        note: Some(lit(note)),
        error: None,
    }
}

fn models_text(n: usize) -> (r: String)
    ensures
        r@ == decimal(n as nat) + " model(s)"@,
{
    let mut t = decimal_vec(n as u64);
    append_str(&mut t, " model(s)");
    string_of(&t)
}

/// The snapshot that a source's JSON reply gives.
pub fn reply_usage_snapshot(s: UsageSource, provider: &str, reply: &JsonValue, now: &str) -> (r: ProviderUsageSnapshotView)
    requires
        s == UsageSource::MiniMax ==> remains_fit(*reply),
        s != UsageSource::Unsupported,
    ensures
        r@ == reply_snapshot(s, provider@, *reply, now@),
{
    match s {
        UsageSource::MiniMax => {
            let keys = vec!["remains", "remain", "remaining", "remaining_quota", "remain_prompt", "remaining_prompts", "prompt_remains"];
            assert(key_views(keys@) =~= minimax_keys());
            let direct = pick_stringish(reply, &keys);
            let remaining = match direct {
                Some(d) => Some(d),
                None => pick_minimax_model_remains(reply),
            };
            read(provider, remaining, false, None, Some("5h rolling window"), now, "Fetched from MiniMax Coding Plan remains endpoint")
        },
        UsageSource::Zai => {
            let remaining = match pick_quota_percentage(reply) {
                Some(p) => {
                    let mut t = chars_of(p.as_str());
                    append_str(&mut t, "%");
                    Some(string_of(&t))
                },
                None => None,
            };
            read(provider, remaining, false, None, Some("Coding Plan limits"), now, "Fetched from Z.AI monitor usage endpoint")
        },
        UsageSource::Kimi => {
            let keys = vec!["available_balance", "balance", "total_balance", "remaining_balance"];
            assert(key_views(keys@) =~= seq!["available_balance"@, "balance"@, "total_balance"@, "remaining_balance"@]);
            let ckeys = vec!["currency", "unit"];
            assert(key_views(ckeys@) =~= seq!["currency"@, "unit"@]);
            let balance = pick_stringish(reply, &keys);
            let currency = pick_stringish(reply, &ckeys);
            read(provider, balance, true, currency, None, now, "Fetched from Moonshot balance endpoint")
        },
        UsageSource::OpenAi => {
            let keys = vec!["total_tokens", "input_tokens", "output_tokens", "num_model_requests"];
            assert(key_views(keys@) =~= seq!["total_tokens"@, "input_tokens"@, "output_tokens"@, "num_model_requests"@]);
            let total = pick_stringish(reply, &keys);
            read(provider, total, false, None, Some("organization usage"), now, "Fetched from OpenAI usage API")
        },
        UsageSource::Modal => {
            let n = array_len(reply, "data");
            let mut r = read(provider, Some(models_text(n)), false, None, None, now, "Modal does not expose balance via API; showing API key health via /models");
            r.available = true;
            r
        },
        _ => {
            let n = array_len(reply, "models");
            let mut r = read(provider, Some(models_text(n)), false, None, None, now, "Gemini balance is managed in Google AI Studio/Cloud Console; showing API key health via /models");
            r.available = true;
            r
        },
    }
}

/// The snapshot that a source's JSON reply gives, where its numbers can be
/// read; `None` for a MiniMax reply on which `remains_fit` fails.
pub fn reply_usage_snapshot_checked(s: UsageSource, provider: &str, reply: &JsonValue, now: &str) -> (r: Option<ProviderUsageSnapshotView>)
    requires
        s != UsageSource::Unsupported,
    ensures
        r is None <==> (s == UsageSource::MiniMax && !remains_fit(*reply)),
        r matches Some(x) ==> x@ == reply_snapshot(s, provider@, *reply, now@),
{
    if s == UsageSource::MiniMax && !remains_fit_check(reply) {
        None
    } else {
        Some(reply_usage_snapshot(s, provider, reply, now))
    }
}

} // verus!
