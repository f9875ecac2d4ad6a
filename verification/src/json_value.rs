//! A JSON document as plain values, and the searches that the provider
//! usage readers make in one: the first value under a key at any depth, and
//! values picked out of it as text.
//!
//! Parsing the JSON text is the caller's business; an object keeps its
//! entries in the parser's order.
use vstd::prelude::*;

use crate::text::{chars_of, lit, lower, seq_eq, str_eq, string_of, trim, trimmed, upper_char};

verus! {

/// A JSON number: its text as the parser prints it, and its value when it
/// is an integer that fits in an `i64`.
#[derive(Debug)]
pub struct JsonNumber {
    pub text: String,
    pub int: Option<i64>,
}

#[derive(Debug)]
pub enum JsonValue {
    Null,
    Bool(bool),
    Number(JsonNumber),
    String(String),
    Array(Vec<JsonValue>),
    Object(Vec<(String, JsonValue)>),
}

/// The value of the first entry of an object with the key.
pub open spec fn entry_value(entries: Seq<(String, JsonValue)>, key: Seq<char>) -> Option<JsonValue>
    decreases entries.len(),
{
    if entries.len() == 0 {
        None
    } else if entries[0].0@ == key {
        Some(entries[0].1)
    } else {
        entry_value(entries.drop_first(), key)
    }
}

/// `Value::get`: the value under a key of an object, if any.
pub open spec fn get_key(v: JsonValue, key: Seq<char>) -> Option<JsonValue> {
    match v {
        JsonValue::Object(entries) => entry_value(entries@, key),
        _ => None,
    }
}

/// The first value under the key: in an object, its own entry first, then
/// the values' contents in order; in an array, the items' contents in
/// order.
pub open spec fn find_key(v: JsonValue, key: Seq<char>) -> Option<JsonValue>
    decreases v,
{
    match v {
        JsonValue::Object(entries) => match entry_value(entries@, key) {
            Some(x) => Some(x),
            None => find_in_entries(entries@, key),
        },
        JsonValue::Array(items) => find_in_items(items@, key),
        _ => None,
    }
}

pub open spec fn find_in_items(items: Seq<JsonValue>, key: Seq<char>) -> Option<JsonValue>
    decreases items,
{
    if items.len() == 0 {
        None
    } else {
        match find_key(items[0], key) {
            Some(x) => Some(x),
            None => find_in_items(items.drop_first(), key),
        }
    }
}

pub open spec fn find_in_entries(entries: Seq<(String, JsonValue)>, key: Seq<char>) -> Option<JsonValue>
    decreases entries,
{
    if entries.len() == 0 {
        None
    } else {
        match find_key(entries[0].1, key) {
            Some(x) => Some(x),
            None => find_in_entries(entries.drop_first(), key),
        }
    }
}

fn entry_get<'a>(entries: &'a Vec<(String, JsonValue)>, key: &Vec<char>) -> (r: Option<&'a JsonValue>)
    ensures
        match entry_value(entries@, key@) {
            Some(x) => r matches Some(y) && *y == x,
            None => r is None,
        },
{
    let mut i: usize = 0;
    assert(entries@.skip(0) =~= entries@);
    while i < entries.len()
        invariant
            i <= entries.len(),
            entry_value(entries@, key@) == entry_value(entries@.skip(i as int), key@),
        decreases entries.len() - i,
    {
        assert(entries@.skip(i as int).drop_first() =~= entries@.skip(i + 1));
        assert(entries@.skip(i as int)[0] == entries@[i as int]);
        if seq_eq(&chars_of(entries[i].0.as_str()), key) {
            return Some(&entries[i].1);
        }
        i += 1;
    }
    None
}

/// `Value::get`.
pub fn get<'a>(v: &'a JsonValue, key: &Vec<char>) -> (r: Option<&'a JsonValue>)
    ensures
        match get_key(*v, key@) {
            Some(x) => r matches Some(y) && *y == x,
            None => r is None,
        },
{
    match v {
        JsonValue::Object(entries) => entry_get(entries, key),
        _ => None,
    }
}

/// The first value under `key` at any depth (see `find_key`).
pub fn find_key_recursive<'a>(v: &'a JsonValue, key: &Vec<char>) -> (r: Option<&'a JsonValue>)
    ensures
        match find_key(*v, key@) {
            Some(x) => r matches Some(y) && *y == x,
            None => r is None,
        },
    decreases v,
{
    match v {
        JsonValue::Object(entries) => {
            if let Some(x) = entry_get(entries, key) {
                return Some(x);
            }
            let mut i: usize = 0;
            assert(entries@.skip(0) =~= entries@);
            while i < entries.len()
                invariant
                    i <= entries.len(),
                    *v == JsonValue::Object(*entries),
                    entry_value(entries@, key@) is None,
                    find_in_entries(entries@, key@) == find_in_entries(entries@.skip(i as int), key@),
                decreases entries.len() - i,
            {
                assert(entries@.skip(i as int).drop_first() =~= entries@.skip(i + 1));
                assert(entries@.skip(i as int)[0] == entries@[i as int]);
                assert(decreases_to!(*v => entries@[i as int].1));
                if let Some(x) = find_key_recursive(&entries[i].1, key) {
                    return Some(x);
                }
                i += 1;
            }
            None
        },
        JsonValue::Array(items) => {
            let mut i: usize = 0;
            assert(items@.skip(0) =~= items@);
            while i < items.len()
                invariant
                    i <= items.len(),
                    *v == JsonValue::Array(*items),
                    find_in_items(items@, key@) == find_in_items(items@.skip(i as int), key@),
                decreases items.len() - i,
            {
                assert(items@.skip(i as int).drop_first() =~= items@.skip(i + 1));
                assert(items@.skip(i as int)[0] == items@[i as int]);
                assert(decreases_to!(*v => items@[i as int]));
                if let Some(x) = find_key_recursive(&items[i], key) {
                    return Some(x);
                }
                i += 1;
            }
            None
        },
        _ => None,
    }
}

// ---------------------------------------------------------------------------
// The value a document denotes, and building documents
// ---------------------------------------------------------------------------

/// What a JSON document denotes: its texts as character sequences.
pub enum JsonView {
    Null,
    Bool(bool),
    Number(Seq<char>, Option<i64>),
    Str(Seq<char>),
    Array(Seq<JsonView>),
    Object(Seq<(Seq<char>, JsonView)>),
}

pub open spec fn json_view(v: JsonValue) -> JsonView
    decreases v,
{
    match v {
        JsonValue::Null => JsonView::Null,
        JsonValue::Bool(b) => JsonView::Bool(b),
        JsonValue::Number(n) => JsonView::Number(n.text@, n.int),
        JsonValue::String(t) => JsonView::Str(t@),
        JsonValue::Array(items) => JsonView::Array(items_view(items@)),
        JsonValue::Object(entries) => JsonView::Object(entries_view(entries@)),
    }
}

pub open spec fn items_view(items: Seq<JsonValue>) -> Seq<JsonView>
    decreases items,
{
    if items.len() == 0 {
        Seq::empty()
    } else {
        items_view(items.drop_last()).push(json_view(items.last()))
    }
}

pub open spec fn entries_view(entries: Seq<(String, JsonValue)>) -> Seq<(Seq<char>, JsonView)>
    decreases entries,
{
    if entries.len() == 0 {
        Seq::empty()
    } else {
        entries_view(entries.drop_last()).push((entries.last().0@, json_view(entries.last().1)))
    }
}

/// The denotation of an object's entries, entry by entry.
pub proof fn lemma_entries_view(s: Seq<(String, JsonValue)>)
    ensures
        entries_view(s).len() == s.len(),
        forall|i: int| 0 <= i < s.len() ==> #[trigger] entries_view(s)[i] == (s[i].0@, json_view(s[i].1)),
    decreases s.len(),
{
    if s.len() > 0 {
        lemma_entries_view(s.drop_last());
        assert forall|i: int| 0 <= i < s.len() implies #[trigger] entries_view(s)[i] == (s[i].0@, json_view(s[i].1)) by {
            if i < s.len() - 1 {
                assert(entries_view(s.drop_last())[i] == (s.drop_last()[i].0@, json_view(s.drop_last()[i].1)));
            }
        }
    }
}

/// The denotation of an array's items, item by item.
pub proof fn lemma_items_view(s: Seq<JsonValue>)
    ensures
        items_view(s).len() == s.len(),
        forall|i: int| 0 <= i < s.len() ==> #[trigger] items_view(s)[i] == json_view(s[i]),
    decreases s.len(),
{
    if s.len() > 0 {
        lemma_items_view(s.drop_last());
        assert forall|i: int| 0 <= i < s.len() implies #[trigger] items_view(s)[i] == json_view(s[i]) by {
            if i < s.len() - 1 {
                assert(items_view(s.drop_last())[i] == json_view(s.drop_last()[i]));
            }
        }
    }
}

/// The value of the first entry with the key.
pub open spec fn view_entry(entries: Seq<(Seq<char>, JsonView)>, key: Seq<char>) -> Option<JsonView>
    decreases entries.len(),
{
    if entries.len() == 0 {
        None
    } else if entries[0].0 == key {
        Some(entries[0].1)
    } else {
        view_entry(entries.drop_first(), key)
    }
}

/// Looking a key up in an object's denotation is looking it up in the
/// object.
pub proof fn lemma_view_entry(entries: Seq<(String, JsonValue)>, key: Seq<char>)
    ensures
        view_entry(entries_view(entries), key) == match entry_value(entries, key) {
            Some(x) => Some(json_view(x)),
            None => None,
        },
    decreases entries.len(),
{
    lemma_entries_view(entries);
    if entries.len() > 0 {
        lemma_entries_view(entries.drop_first());
        assert(entries_view(entries).drop_first() =~= entries_view(entries.drop_first()));
        lemma_view_entry(entries.drop_first(), key);
    }
}

/// A JSON string.
pub fn json_str(t: &str) -> (r: JsonValue)
    ensures
        json_view(r) == JsonView::Str(t@),
{
    JsonValue::String(String::from_str(t))
}

/// A JSON number printed as `text`, with its value when it is an integer.
pub fn json_number(text: &str, value: Option<i64>) -> (r: JsonValue)
    ensures
        json_view(r) == JsonView::Number(text@, value),
{
    JsonValue::Number(JsonNumber { text: String::from_str(text), int: value })
}

/// Appends an entry to the entries of an object being built.
pub fn push_entry(entries: &mut Vec<(String, JsonValue)>, key: &str, value: JsonValue)
    ensures
        entries_view(final(entries)@) == entries_view(old(entries)@).push((key@, json_view(value))),
{
    let ghost before = entries@;
    entries.push((String::from_str(key), value));
    assert(entries@.drop_last() =~= before);
}

/// Appends an item to the items of an array being built.
pub fn push_item(items: &mut Vec<JsonValue>, value: JsonValue)
    ensures
        items_view(final(items)@) == items_view(old(items)@).push(json_view(value)),
{
    let ghost before = items@;
    items.push(value);
    assert(items@.drop_last() =~= before);
}

/// A copy of a document.
#[verifier::loop_isolation(false)]
pub fn copy_json(v: &JsonValue) -> (r: JsonValue)
    ensures
        json_view(r) == json_view(*v),
    decreases v,
{
    match v {
        JsonValue::Null => JsonValue::Null,
        JsonValue::Bool(b) => JsonValue::Bool(*b),
        JsonValue::Number(n) => JsonValue::Number(JsonNumber { text: n.text.clone(), int: n.int }),
        JsonValue::String(t) => JsonValue::String(t.clone()),
        JsonValue::Array(items) => {
            let mut out: Vec<JsonValue> = Vec::new();
            let mut i: usize = 0;
            assert(items_view(out@) =~= items_view(items@).take(0)) by {
                lemma_items_view(items@);
            }
            while i < items.len()
                invariant
                    i <= items.len(),
                    *v == JsonValue::Array(*items),
                    items_view(out@) == items_view(items@).take(i as int),
                decreases items.len() - i,
            {
                assert(decreases_to!(*v => items@[i as int]));
                let c = copy_json(&items[i]);
                let ghost before = out@;
                push_item(&mut out, c);
                proof {
                    lemma_items_view(items@);
                    assert(items_view(items@).take(i + 1) =~= items_view(items@).take(i as int).push(json_view(items@[i as int])));
                }
                i += 1;
            }
            proof {
                lemma_items_view(items@);
            }
            assert(items_view(items@).take(items.len() as int) =~= items_view(items@));
            JsonValue::Array(out)
        },
        JsonValue::Object(entries) => {
            let mut out: Vec<(String, JsonValue)> = Vec::new();
            let mut i: usize = 0;
            assert(entries_view(out@) =~= entries_view(entries@).take(0)) by {
                lemma_entries_view(entries@);
            }
            while i < entries.len()
                invariant
                    i <= entries.len(),
                    *v == JsonValue::Object(*entries),
                    entries_view(out@) == entries_view(entries@).take(i as int),
                decreases entries.len() - i,
            {
                assert(decreases_to!(*v => entries@[i as int].1));
                let c = copy_json(&entries[i].1);
                push_entry(&mut out, entries[i].0.as_str(), c);
                proof {
                    lemma_entries_view(entries@);
                    assert(entries_view(entries@).take(i + 1) =~= entries_view(entries@).take(i as int).push(
                        (entries@[i as int].0@, json_view(entries@[i as int].1)),
                    ));
                }
                i += 1;
            }
            proof {
                lemma_entries_view(entries@);
            }
            assert(entries_view(entries@).take(entries.len() as int) =~= entries_view(entries@));
            JsonValue::Object(out)
        },
    }
}

} // verus!
