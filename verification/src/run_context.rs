//! The metadata recorded with a run (its mode, provider, model and the
//! agent preset the prompt named) and how the context view reads it back.
//!
//! Writing the document as JSON text and parsing it back into a value are
//! the caller's business.
use vstd::prelude::*;

use crate::agent_presets::{mode_word, AgentMode, AgentPreset};
use crate::json_value::{
    get, json_number, json_str, json_view, lemma_view_entry, view_entry, JsonValue, JsonView,
};
use crate::text::{chars_of, copy_string, opt_str_view, opt_view};
use crate::tool::{props4, props5};

verus! {

/// What is recorded of the agent preset a run's prompt named.
pub open spec fn preset_view(id: Seq<char>, name: Seq<char>, mode: AgentMode, model: Option<Seq<char>>) -> JsonView {
    JsonView::Object(
        seq![
            ("id"@, JsonView::Str(id)),
            ("name"@, JsonView::Str(name)),
            ("mode"@, JsonView::Str(mode_word(mode))),
            ("model"@, text_or_null(model)),
        ],
    )
}

pub open spec fn view_or_null(v: Option<JsonView>) -> JsonView {
    match v {
        Some(x) => x,
        None => JsonView::Null,
    }
}

pub open spec fn text_or_null(t: Option<Seq<char>>) -> JsonView {
    match t {
        Some(s) => JsonView::Str(s),
        None => JsonView::Null,
    }
}

/// The metadata of a run: version 1, the mode, the provider, the model
/// (null when none) and the agent preset (null when none).
pub open spec fn run_context_view(mode: Seq<char>, provider: Seq<char>, model: Option<Seq<char>>, preset: Option<JsonView>) -> JsonView {
    JsonView::Object(
        seq![
            ("metadata_version"@, JsonView::Number("1"@, Some(1i64))),
            ("mode"@, JsonView::Str(mode)),
            ("provider"@, JsonView::Str(provider)),
            ("model"@, text_or_null(model)),
            ("agent_preset"@, view_or_null(preset)),
        ],
    )
}

fn text_or_null_value(t: Option<&str>) -> (r: JsonValue)
    ensures
        json_view(r) == text_or_null(opt_str_view(t)),
{
    match t {
        Some(s) => json_str(s),
        None => JsonValue::Null,
    }
}

/// What is recorded of an agent preset.
pub fn preset_metadata(preset: &AgentPreset) -> (r: JsonValue)
    ensures
        json_view(r) == preset_view(preset.id@, preset.name@, preset.mode, opt_view(preset.model)),
{
    let mode = match preset.mode {
        AgentMode::Primary => json_str("primary"),
        AgentMode::Subagent => json_str("subagent"),
    };
    let model = match &preset.model {
        Some(m) => text_or_null_value(Some(m.as_str())),
        None => text_or_null_value(None),
    };
    JsonValue::Object(props4("id", json_str(preset.id.as_str()), "name", json_str(preset.name.as_str()), "mode", mode, "model", model))
}

fn context_with(mode: &str, provider: &str, model: Option<&str>, preset: JsonValue) -> (r: JsonValue)
    ensures
        json_view(r) == run_context_view(mode@, provider@, opt_str_view(model), Some(json_view(preset))),
{
    let ghost pv = json_view(preset);
    let r = JsonValue::Object(
        props5(
            "metadata_version",
            json_number("1", Some(1)),
            "mode",
            json_str(mode),
            "provider",
            json_str(provider),
            "model",
            text_or_null_value(model),
            "agent_preset",
            preset,
        ),
    );
    assert(json_view(r) =~~= run_context_view(mode@, provider@, opt_str_view(model), Some(pv)));
    r
}

/// The metadata recorded with a run (see `run_context_view`).
pub fn run_context_document(mode: &str, provider: &str, model: Option<&str>, preset: Option<JsonValue>) -> (r: JsonValue)
    ensures
        json_view(r) == run_context_view(
            mode@,
            provider@,
            opt_str_view(model),
            match preset {
                Some(p) => Some(json_view(p)),
                None => None,
            },
        ),
{
    match preset {
        Some(p) => context_with(mode, provider, model, p),
        None => {
            let r = context_with(mode, provider, model, JsonValue::Null);
            assert(run_context_view(mode@, provider@, opt_str_view(model), Some(JsonView::Null)) =~~= run_context_view(
                mode@,
                provider@,
                opt_str_view(model),
                None,
            ));
            r
        },
    }
}

// ---------------------------------------------------------------------------
// Reading it back
// ---------------------------------------------------------------------------

/// An optional text field: absent or null is none, a string is itself,
/// anything else is unreadable.
pub open spec fn optional_text(v: Option<JsonView>) -> Option<Option<Seq<char>>> {
    match v {
        None => Some(None),
        Some(JsonView::Null) => Some(None),
        Some(JsonView::Str(s)) => Some(Some(s)),
        _ => None,
    }
}

pub type RunMetadata = (Option<Seq<char>>, Option<Seq<char>>, Option<Seq<char>>);

/// The mode, provider and model a run's metadata gives: read from an object
/// by key, or from an array of exactly three in that order; nothing at all
/// when the document has another shape or one of them is neither text nor
/// null.
pub open spec fn run_metadata_of(doc: JsonView) -> RunMetadata {
    match doc {
        JsonView::Object(entries) => match (
            optional_text(view_entry(entries, "mode"@)),
            optional_text(view_entry(entries, "provider"@)),
            optional_text(view_entry(entries, "model"@)),
        ) {
            (Some(a), Some(b), Some(c)) => (a, b, c),
            _ => (None, None, None),
        },
        JsonView::Array(items) => if items.len() == 3 {
            match (optional_text(Some(items[0])), optional_text(Some(items[1])), optional_text(Some(items[2]))) {
                (Some(a), Some(b), Some(c)) => (a, b, c),
                _ => (None, None, None),
            }
        } else {
            (None, None, None)
        },
        _ => (None, None, None),
    }
}

pub open spec fn opt3_view(r: (Option<String>, Option<String>, Option<String>)) -> RunMetadata {
    (opt_view(r.0), opt_view(r.1), opt_view(r.2))
}

fn read_text(v: Option<&JsonValue>) -> (r: Option<Option<String>>)
    ensures
        match optional_text(match v {
            Some(x) => Some(json_view(*x)),
            None => None,
        }) {
            None => r is None,
            Some(t) => r matches Some(x) && opt_view(x) == t,
        },
{
    match v {
        None => Some(None),
        Some(JsonValue::Null) => Some(None),
        Some(JsonValue::String(s)) => Some(Some(copy_string(s))),
        _ => None,
    }
}

/// The mode, provider and model a run's metadata gives (see
/// `run_metadata_of`).
pub fn run_metadata(doc: &JsonValue) -> (r: (Option<String>, Option<String>, Option<String>))
    ensures
        opt3_view(r) == run_metadata_of(json_view(*doc)),
{
    let none = (None, None, None);
    match doc {
        JsonValue::Object(entries) => {
            proof {
                lemma_view_entry(entries@, "mode"@);
                lemma_view_entry(entries@, "provider"@);
                lemma_view_entry(entries@, "model"@);
            }
            let a = read_text(get(doc, &chars_of("mode")));
            let b = read_text(get(doc, &chars_of("provider")));
            let c = read_text(get(doc, &chars_of("model")));
            match (a, b, c) {
                (Some(a), Some(b), Some(c)) => (a, b, c),
                _ => none,
            }
        },
        JsonValue::Array(items) => {
            if items.len() == 3 {
                proof {
                    crate::json_value::lemma_items_view(items@);
                }
                let a = read_text(Some(&items[0]));
                let b = read_text(Some(&items[1]));
                let c = read_text(Some(&items[2]));
                match (a, b, c) {
                    (Some(a), Some(b), Some(c)) => (a, b, c),
                    _ => none,
                }
            } else {
                proof {
                    crate::json_value::lemma_items_view(items@);
                }
                none
            }
        },
        _ => none,
    }
}

/// What a run records of its mode, provider and model is what the context
/// view reads back.
pub proof fn law_run_context_reads_back(mode: Seq<char>, provider: Seq<char>, model: Option<Seq<char>>, preset: Option<JsonView>)
    ensures
        run_metadata_of(run_context_view(mode, provider, model, preset)) == (Some(mode), Some(provider), model),
{
    let doc = run_context_view(mode, provider, model, preset);
    if let JsonView::Object(e0) = doc {
        let e1 = e0.drop_first();
        let e2 = e1.drop_first();
        let e3 = e2.drop_first();
        assert(e1[0] == ("mode"@, JsonView::Str(mode)));
        assert(e2[0] == ("provider"@, JsonView::Str(provider)));
        assert(e3[0] == ("model"@, text_or_null(model)));
        assert(e0[0].0 == "metadata_version"@);
        reveal_strlit("metadata_version");
        reveal_strlit("mode");
        reveal_strlit("provider");
        reveal_strlit("model");
        assert("mode"@.len() == 4);
        assert("provider"@.len() == 8);
        assert("model"@.len() == 5);
        assert(e0[0].0 != "mode"@);
        assert(e0[0].0 != "provider"@);
        assert(e0[0].0 != "model"@);
        assert(e1[0].0 != "provider"@);
        assert(e1[0].0 != "model"@);
        assert(e2[0].0 != "model"@);
        assert(view_entry(e1, "mode"@) == Some(JsonView::Str(mode)));
        assert(view_entry(e0, "mode"@) == view_entry(e1, "mode"@));
        assert(view_entry(e2, "provider"@) == Some(JsonView::Str(provider)));
        assert(view_entry(e1, "provider"@) == view_entry(e2, "provider"@));
        assert(view_entry(e0, "provider"@) == view_entry(e1, "provider"@));
        assert(view_entry(e3, "model"@) == Some(text_or_null(model)));
        assert(view_entry(e2, "model"@) == view_entry(e3, "model"@));
        assert(view_entry(e1, "model"@) == view_entry(e2, "model"@));
        assert(view_entry(e0, "model"@) == view_entry(e1, "model"@));
    }
}

} // verus!
