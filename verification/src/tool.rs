//! Tool descriptors in the shape of an MCP tool definition: a name, a
//! description and JSON schemas for the input and, optionally, the output;
//! with builders for the small schemas the benchmarks offer.
use vstd::prelude::*;

use crate::json_value::{
    entries_view, items_view, json_number, json_str, json_view, push_entry, push_item, JsonValue, JsonView,
};
use crate::text::views;

verus! {

#[derive(Debug)]
pub struct ToolDescriptor {
    pub name: String,
    pub description: String,
    pub input_schema: JsonValue,
    pub output_schema: Option<JsonValue>,
}

pub struct ToolView {
    pub name: Seq<char>,
    pub description: Seq<char>,
    pub input_schema: JsonView,
    pub output_schema: Option<JsonView>,
}

impl View for ToolDescriptor {
    type V = ToolView;

    open spec fn view(&self) -> ToolView {
        ToolView {
            name: self.name@,
            description: self.description@,
            input_schema: json_view(self.input_schema),
            output_schema: match self.output_schema {
                Some(s) => Some(json_view(s)),
                None => None,
            },
        }
    }
}

pub open spec fn tool_views(v: Seq<ToolDescriptor>) -> Seq<ToolView> {
    Seq::new(v.len(), |i: int| v[i]@)
}

/// A tool with an input schema and no output schema.
pub open spec fn tool_view(name: Seq<char>, description: Seq<char>, input_schema: JsonView) -> ToolView {
    ToolView { name, description, input_schema, output_schema: None }
}

pub open spec fn strs(texts: Seq<Seq<char>>) -> Seq<JsonView> {
    Seq::new(texts.len(), |i: int| JsonView::Str(texts[i]))
}

/// `{"type": t}`.
pub open spec fn typed(t: Seq<char>) -> JsonView {
    JsonView::Object(seq![("type"@, JsonView::Str(t))])
}

/// `{"type": t, "description": d}`.
pub open spec fn described(t: Seq<char>, d: Seq<char>) -> JsonView {
    JsonView::Object(seq![("type"@, JsonView::Str(t)), ("description"@, JsonView::Str(d))])
}

/// `{"type": t, "description": d, "minimum": m}`, `m` printed as `text`.
pub open spec fn bounded(t: Seq<char>, d: Seq<char>, text: Seq<char>, value: Option<i64>) -> JsonView {
    JsonView::Object(
        seq![
            ("type"@, JsonView::Str(t)),
            ("description"@, JsonView::Str(d)),
            ("minimum"@, JsonView::Number(text, value)),
        ],
    )
}

/// `{"type": "string", "enum": [..], "description": d}`.
pub open spec fn choice(choices: Seq<Seq<char>>, d: Seq<char>) -> JsonView {
    JsonView::Object(
        seq![
            ("type"@, JsonView::Str("string"@)),
            ("enum"@, JsonView::Array(strs(choices))),
            ("description"@, JsonView::Str(d)),
        ],
    )
}

/// `{"type": "object", "properties": {..}, "required": [..]}`.
pub open spec fn object_schema(props: Seq<(Seq<char>, JsonView)>, required: Seq<Seq<char>>) -> JsonView {
    JsonView::Object(
        seq![
            ("type"@, JsonView::Str("object"@)),
            ("properties"@, JsonView::Object(props)),
            ("required"@, JsonView::Array(strs(required))),
        ],
    )
}

/// `{"type": "object", "properties": {}}`: a tool without arguments.
pub open spec fn no_arguments() -> JsonView {
    JsonView::Object(seq![("type"@, JsonView::Str("object"@)), ("properties"@, JsonView::Object(seq![]))])
}

pub fn tool(name: &str, description: &str, input_schema: JsonValue) -> (r: ToolDescriptor)
    ensures
        r@ == tool_view(name@, description@, json_view(input_schema)),
{
    ToolDescriptor {
        name: String::from_str(name),
        description: String::from_str(description),
        input_schema,
        output_schema: None,
    }
}

/// An array of the strings.
pub fn json_strings(texts: &Vec<String>) -> (r: JsonValue)
    ensures
        json_view(r) == JsonView::Array(strs(views(texts@))),
{
    let mut items: Vec<JsonValue> = Vec::new();
    let mut i: usize = 0;
    assert(items_view(items@) =~= Seq::<JsonView>::empty());
    while i < texts.len()
        invariant
            i <= texts.len(),
            items_view(items@) == strs(views(texts@)).take(i as int),
        decreases texts.len() - i,
    {
        push_item(&mut items, json_str(texts[i].as_str()));
        i += 1;
        assert(items_view(items@) =~= strs(views(texts@)).take(i as int));
    }
    assert(strs(views(texts@)).take(texts.len() as int) =~= strs(views(texts@)));
    JsonValue::Array(items)
}

/// No names.
pub fn no_names() -> (r: Vec<String>)
    ensures
        views(r@) == Seq::<Seq<char>>::empty(),
{
    let r: Vec<String> = Vec::new();
    assert(views(r@) =~= Seq::<Seq<char>>::empty());
    r
}

/// One name.
pub fn names1(a: &str) -> (r: Vec<String>)
    ensures
        views(r@) == seq![a@],
{
    let r = vec![String::from_str(a)];
    assert(views(r@) =~= seq![a@]);
    r
}

/// Two names, in order.
pub fn names2(a: &str, b: &str) -> (r: Vec<String>)
    ensures
        views(r@) == seq![a@, b@],
{
    let r = vec![String::from_str(a), String::from_str(b)];
    assert(views(r@) =~= seq![a@, b@]);
    r
}

/// Three names, in order.
pub fn names3(a: &str, b: &str, c: &str) -> (r: Vec<String>)
    ensures
        views(r@) == seq![a@, b@, c@],
{
    let r = vec![String::from_str(a), String::from_str(b), String::from_str(c)];
    assert(views(r@) =~= seq![a@, b@, c@]);
    r
}

/// Four names, in order.
pub fn names4(a: &str, b: &str, c: &str, d: &str) -> (r: Vec<String>)
    ensures
        views(r@) == seq![a@, b@, c@, d@],
{
    let r = vec![String::from_str(a), String::from_str(b), String::from_str(c), String::from_str(d)];
    assert(views(r@) =~= seq![a@, b@, c@, d@]);
    r
}

/// Five names, in order.
pub fn names5(a: &str, b: &str, c: &str, d: &str, e: &str) -> (r: Vec<String>)
    ensures
        views(r@) == seq![a@, b@, c@, d@, e@],
{
    let r = vec![String::from_str(a), String::from_str(b), String::from_str(c), String::from_str(d), String::from_str(e)];
    assert(views(r@) =~= seq![a@, b@, c@, d@, e@]);
    r
}

/// The entries of an object with one property.
pub fn props1(k1: &str, v1: JsonValue) -> (r: Vec<(String, JsonValue)>)
    ensures
        entries_view(r@) == seq![(k1@, json_view(v1))],
{
    let mut p: Vec<(String, JsonValue)> = Vec::new();
    assert(entries_view(p@) =~= Seq::<(Seq<char>, JsonView)>::empty());
    push_entry(&mut p, k1, v1);
    p
}

/// The entries of an object with two properties, in order.
pub fn props2(k1: &str, v1: JsonValue, k2: &str, v2: JsonValue) -> (r: Vec<(String, JsonValue)>)
    ensures
        entries_view(r@) == seq![(k1@, json_view(v1)), (k2@, json_view(v2))],
{
    let mut p = props1(k1, v1);
    push_entry(&mut p, k2, v2);
    assert(entries_view(p@) =~= seq![(k1@, json_view(v1)), (k2@, json_view(v2))]);
    p
}

/// The entries of an object with three properties, in order.
pub fn props3(k1: &str, v1: JsonValue, k2: &str, v2: JsonValue, k3: &str, v3: JsonValue) -> (r: Vec<(String, JsonValue)>)
    ensures
        entries_view(r@) == seq![(k1@, json_view(v1)), (k2@, json_view(v2)), (k3@, json_view(v3))],
{
    let mut p = props2(k1, v1, k2, v2);
    push_entry(&mut p, k3, v3);
    assert(entries_view(p@) =~= seq![(k1@, json_view(v1)), (k2@, json_view(v2)), (k3@, json_view(v3))]);
    p
}

/// The entries of an object with four properties, in order.
pub fn props4(
    k1: &str,
    v1: JsonValue,
    k2: &str,
    v2: JsonValue,
    k3: &str,
    v3: JsonValue,
    k4: &str,
    v4: JsonValue,
) -> (r: Vec<(String, JsonValue)>)
    ensures
        entries_view(r@) == seq![(k1@, json_view(v1)), (k2@, json_view(v2)), (k3@, json_view(v3)), (k4@, json_view(v4))],
{
    let mut p = props3(k1, v1, k2, v2, k3, v3);
    push_entry(&mut p, k4, v4);
    assert(entries_view(p@) =~= seq![(k1@, json_view(v1)), (k2@, json_view(v2)), (k3@, json_view(v3)), (k4@, json_view(v4))]);
    p
}

/// The entries of an object with five properties, in order.
pub fn props5(
    k1: &str,
    v1: JsonValue,
    k2: &str,
    v2: JsonValue,
    k3: &str,
    v3: JsonValue,
    k4: &str,
    v4: JsonValue,
    k5: &str,
    v5: JsonValue,
) -> (r: Vec<(String, JsonValue)>)
    ensures
        entries_view(r@) == seq![
            (k1@, json_view(v1)),
            (k2@, json_view(v2)),
            (k3@, json_view(v3)),
            (k4@, json_view(v4)),
            (k5@, json_view(v5)),
        ],
{
    let mut p = props4(k1, v1, k2, v2, k3, v3, k4, v4);
    push_entry(&mut p, k5, v5);
    assert(entries_view(p@) =~= seq![
        (k1@, json_view(v1)),
        (k2@, json_view(v2)),
        (k3@, json_view(v3)),
        (k4@, json_view(v4)),
        (k5@, json_view(v5)),
    ]);
    p
}

pub fn typed_value(t: &str) -> (r: JsonValue)
    ensures
        json_view(r) == typed(t@),
{
    let mut e: Vec<(String, JsonValue)> = Vec::new();
    push_entry(&mut e, "type", json_str(t));
    JsonValue::Object(e)
}

pub fn described_value(t: &str, d: &str) -> (r: JsonValue)
    ensures
        json_view(r) == described(t@, d@),
{
    let mut e: Vec<(String, JsonValue)> = Vec::new();
    push_entry(&mut e, "type", json_str(t));
    push_entry(&mut e, "description", json_str(d));
    proof {
        if let JsonView::Object(s) = described(t@, d@) {
            assert(entries_view(e@) =~= s);
        }
    }
    JsonValue::Object(e)
}

pub fn bounded_value(t: &str, d: &str, text: &str, value: Option<i64>) -> (r: JsonValue)
    ensures
        json_view(r) == bounded(t@, d@, text@, value),
{
    let mut e: Vec<(String, JsonValue)> = Vec::new();
    push_entry(&mut e, "type", json_str(t));
    push_entry(&mut e, "description", json_str(d));
    push_entry(&mut e, "minimum", json_number(text, value));
    proof {
        if let JsonView::Object(s) = bounded(t@, d@, text@, value) {
            assert(entries_view(e@) =~= s);
        }
    }
    JsonValue::Object(e)
}

pub fn choice_value(choices: Vec<String>, d: &str) -> (r: JsonValue)
    ensures
        json_view(r) == choice(views(choices@), d@),
{
    let mut e: Vec<(String, JsonValue)> = Vec::new();
    push_entry(&mut e, "type", json_str("string"));
    push_entry(&mut e, "enum", json_strings(&choices));
    push_entry(&mut e, "description", json_str(d));
    proof {
        if let JsonView::Object(s) = choice(views(choices@), d@) {
            assert(entries_view(e@) =~= s);
        }
    }
    JsonValue::Object(e)
}

pub fn object_schema_value(props: Vec<(String, JsonValue)>, required: Vec<String>) -> (r: JsonValue)
    ensures
        json_view(r) == object_schema(entries_view(props@), views(required@)),
{
    let ghost pv = entries_view(props@);
    let mut e: Vec<(String, JsonValue)> = Vec::new();
    push_entry(&mut e, "type", json_str("object"));
    push_entry(&mut e, "properties", JsonValue::Object(props));
    push_entry(&mut e, "required", json_strings(&required));
    proof {
        if let JsonView::Object(s) = object_schema(pv, views(required@)) {
            assert(entries_view(e@) =~= s);
        }
    }
    JsonValue::Object(e)
}

pub fn no_arguments_value() -> (r: JsonValue)
    ensures
        json_view(r) == no_arguments(),
{
    let mut e: Vec<(String, JsonValue)> = Vec::new();
    push_entry(&mut e, "type", json_str("object"));
    push_entry(&mut e, "properties", JsonValue::Object(Vec::new()));
    assert(entries_view(Seq::<(String, JsonValue)>::empty()) =~= seq![]);
    proof {
        if let JsonView::Object(s) = no_arguments() {
            assert(entries_view(e@) =~= s);
        }
    }
    JsonValue::Object(e)
}

} // verus!
