//! A JSON-RPC session with an MCP server over its standard streams: the
//! messages sent (requests with increasing ids, notifications, the
//! handshake), what each message read means for the pending request, and
//! the tools a `tools/list` reply offers.
//!
//! Spawning the server, the framed reads and writes and the JSON text are
//! the caller's business; it runs the loop and hands each message in.
use vstd::prelude::*;

use crate::json_value::{
    copy_json, entries_view, get, items_view, json_number, json_str, json_view, lemma_items_view,
    lemma_view_entry, view_entry, JsonValue, JsonView,
};
use crate::mcp::McpServerConfig;
use crate::text::{append_str, append_vec, chars_of, copy_string, decimal, decimal_vec, lit, string_of};
use crate::tool::{props2, props3, props4};

verus! {

// ---------------------------------------------------------------------------
// Messages sent
// ---------------------------------------------------------------------------

/// An integer as JSON prints it.
pub open spec fn int_text(n: i64) -> Seq<char> {
    if n < 0 {
        seq!['-'] + decimal((-n) as nat)
    } else {
        decimal(n as nat)
    }
}

pub open spec fn int_view(n: i64) -> JsonView {
    JsonView::Number(int_text(n), Some(n))
}

fn int_value(n: i64) -> (r: JsonValue)
    ensures
        json_view(r) == int_view(n),
{
    let magnitude: u64 = if n < 0 {
        (0i128 - n as i128) as u64
    } else {
        n as u64
    };
    let mut t: Vec<char> = Vec::new();
    if n < 0 {
        t.push('-');
    }
    append_vec(&mut t, &decimal_vec(magnitude));
    assert(t@ =~= int_text(n));
    let text = string_of(&t);
    json_number(text.as_str(), Some(n))
}

/// `{"jsonrpc": "2.0", "id": id, "method": method, "params": params}`.
pub open spec fn request_view(id: i64, method: Seq<char>, params: JsonView) -> JsonView {
    JsonView::Object(
        seq![
            ("jsonrpc"@, JsonView::Str("2.0"@)),
            ("id"@, int_view(id)),
            ("method"@, JsonView::Str(method)),
            ("params"@, params),
        ],
    )
}

/// `{"jsonrpc": "2.0", "method": method, "params": params}`.
pub open spec fn notification_view(method: Seq<char>, params: JsonView) -> JsonView {
    JsonView::Object(seq![("jsonrpc"@, JsonView::Str("2.0"@)), ("method"@, JsonView::Str(method)), ("params"@, params)])
}

pub fn request_payload(id: i64, method: &str, params: JsonValue) -> (r: JsonValue)
    ensures
        json_view(r) == request_view(id, method@, json_view(params)),
{
    let ghost pv = json_view(params);
    let r = JsonValue::Object(props4("jsonrpc", json_str("2.0"), "id", int_value(id), "method", json_str(method), "params", params));
    assert(json_view(r) =~~= request_view(id, method@, pv));
    r
}

pub fn notification_payload(method: &str, params: JsonValue) -> (r: JsonValue)
    ensures
        json_view(r) == notification_view(method@, json_view(params)),
{
    let ghost pv = json_view(params);
    let r = JsonValue::Object(props3("jsonrpc", json_str("2.0"), "method", json_str(method), "params", params));
    assert(json_view(r) =~~= notification_view(method@, pv));
    r
}

/// The parameters of the handshake: the protocol version, no capabilities
/// and the client's name and version.
pub open spec fn initialize_params_view() -> JsonView {
    JsonView::Object(
        seq![
            ("protocolVersion"@, JsonView::Str("2024-11-05"@)),
            ("capabilities"@, JsonView::Object(seq![])),
            (
                "clientInfo"@,
                JsonView::Object(seq![("name"@, JsonView::Str("orchestrix"@)), ("version"@, JsonView::Str("0.1.0"@))]),
            ),
        ],
    )
}

pub fn initialize_params() -> (r: JsonValue)
    ensures
        json_view(r) == initialize_params_view(),
{
    let empty: Vec<(String, JsonValue)> = Vec::new();
    assert(entries_view(empty@) =~= Seq::<(Seq<char>, JsonView)>::empty());
    let client = JsonValue::Object(props2("name", json_str("orchestrix"), "version", json_str("0.1.0")));
    let r = JsonValue::Object(props3("protocolVersion", json_str("2024-11-05"), "capabilities", JsonValue::Object(empty), "clientInfo", client));
    assert(json_view(r) =~~= initialize_params_view());
    r
}

/// The parameters of a tool call: the tool's name and its arguments.
pub fn tool_call_params(tool_name: &str, arguments: JsonValue) -> (r: JsonValue)
    ensures
        json_view(r) == JsonView::Object(seq![("name"@, JsonView::Str(tool_name@)), ("arguments"@, json_view(arguments))]),
{
    JsonValue::Object(props2("name", json_str(tool_name), "arguments", arguments))
}

/// The ids of a session: each request takes the next one, from 1 on.
#[derive(Debug)]
pub struct McpSessionIds {
    pub next_id: i64,
}

impl McpSessionIds {
    pub fn new() -> (r: McpSessionIds)
        ensures
            r.next_id == 1,
    {
        McpSessionIds { next_id: 1 }
    }

    /// The request for a method, with the next id; returns the id and the
    /// message.
    pub fn request(&mut self, method: &str, params: JsonValue) -> (r: (i64, JsonValue))
        requires
            old(self).next_id < i64::MAX,
        ensures
            r.0 == old(self).next_id,
            final(self).next_id == old(self).next_id + 1,
            json_view(r.1) == request_view(r.0, method@, json_view(params)),
    {
        let id = self.next_id;
        self.next_id = self.next_id + 1;
        (id, request_payload(id, method, params))
    }
}

// ---------------------------------------------------------------------------
// Messages read
// ---------------------------------------------------------------------------

/// What a message read means for the pending request with the given id.
#[derive(Debug)]
pub enum ResponseStep {
    /// Not the reply to it: read on.
    Skip,
    /// Its reply, carrying an error.
    Failed(JsonValue),
    /// Its reply, carrying a result.
    Done(JsonValue),
}

pub enum StepView {
    Skip,
    Failed(JsonView),
    Done(JsonView),
}

pub open spec fn step_view(s: ResponseStep) -> StepView {
    match s {
        ResponseStep::Skip => StepView::Skip,
        ResponseStep::Failed(e) => StepView::Failed(json_view(e)),
        ResponseStep::Done(v) => StepView::Done(json_view(v)),
    }
}

/// A message is the reply when its `id` is that integer; a reply with an
/// `error` fails with it, else it gives its `result` (`{}` when absent).
pub open spec fn response_step_of(msg: JsonView, id: i64) -> StepView {
    match msg {
        JsonView::Object(entries) => if view_entry(entries, "id"@) matches Some(JsonView::Number(_, Some(n))) && n == id {
            match view_entry(entries, "error"@) {
                Some(e) => StepView::Failed(e),
                None => StepView::Done(
                    match view_entry(entries, "result"@) {
                        Some(v) => v,
                        None => JsonView::Object(seq![]),
                    },
                ),
            }
        } else {
            StepView::Skip
        },
        _ => StepView::Skip,
    }
}

pub fn response_step(msg: &JsonValue, id: i64) -> (r: ResponseStep)
    ensures
        step_view(r) == response_step_of(json_view(*msg), id),
{
    match msg {
        JsonValue::Object(entries) => {
            proof {
                lemma_view_entry(entries@, "id"@);
                lemma_view_entry(entries@, "error"@);
                lemma_view_entry(entries@, "result"@);
            }
            let matches = match get(msg, &chars_of("id")) {
                Some(JsonValue::Number(n)) => n.int == Some(id),
                _ => false,
            };
            if !matches {
                return ResponseStep::Skip;
            }
            if let Some(e) = get(msg, &chars_of("error")) {
                return ResponseStep::Failed(copy_json(e));
            }
            match get(msg, &chars_of("result")) {
                Some(v) => ResponseStep::Done(copy_json(v)),
                None => {
                    let empty: Vec<(String, JsonValue)> = Vec::new();
                    assert(entries_view(empty@) =~= Seq::<(Seq<char>, JsonView)>::empty());
                    ResponseStep::Done(JsonValue::Object(empty))
                },
            }
        },
        _ => ResponseStep::Skip,
    }
}

/// The error of a failed call, quoting the error as JSON text.
pub fn call_error(method: &str, error_json: &str) -> (r: String)
    ensures
        r@ == "MCP error calling "@ + method@ + ": "@ + error_json@,
{
    let mut m = chars_of("MCP error calling ");
    append_str(&mut m, method);
    append_str(&mut m, ": ");
    append_str(&mut m, error_json);
    string_of(&m)
}

// ---------------------------------------------------------------------------
// Tools
// ---------------------------------------------------------------------------

/// A tool a server offers.
#[derive(Debug)]
pub struct McpToolDescriptor {
    pub name: String,
    pub description: String,
    pub input_schema: JsonValue,
}

pub type ToolModel = (Seq<char>, Seq<char>, JsonView);

pub open spec fn tool_model(t: McpToolDescriptor) -> ToolModel {
    (t.name@, t.description@, json_view(t.input_schema))
}

pub open spec fn tool_models(v: Seq<McpToolDescriptor>) -> Seq<ToolModel> {
    Seq::new(v.len(), |i: int| tool_model(v[i]))
}

/// A text field that may be absent (then empty) but must be text when given.
pub open spec fn defaulted_text(v: Option<JsonView>) -> Option<Seq<char>> {
    match v {
        None => Some(Seq::empty()),
        Some(JsonView::Str(s)) => Some(s),
        _ => None,
    }
}

/// A tool as a `tools/list` reply describes it: an object with a text
/// `name`, a text `description` (empty when absent) and any
/// `input_schema` (null when absent); or the same three in an array of one
/// to three items, in that order.  Anything else describes no tool.
pub open spec fn tool_of(t: JsonView) -> Option<ToolModel> {
    match t {
        JsonView::Object(entries) => match (view_entry(entries, "name"@), defaulted_text(view_entry(entries, "description"@))) {
            (Some(JsonView::Str(n)), Some(d)) => Some(
                (
                    n,
                    d,
                    match view_entry(entries, "input_schema"@) {
                        Some(s) => s,
                        None => JsonView::Null,
                    },
                ),
            ),
            _ => None,
        },
        JsonView::Array(items) => if 1 <= items.len() <= 3 {
            match (
                items[0],
                defaulted_text(
                    if items.len() >= 2 {
                        Some(items[1])
                    } else {
                        None
                    },
                ),
            ) {
                (JsonView::Str(n), Some(d)) => Some(
                    (
                        n,
                        d,
                        if items.len() == 3 {
                            items[2]
                        } else {
                            JsonView::Null
                        },
                    ),
                ),
                _ => None,
            }
        } else {
            None
        },
        _ => None,
    }
}

/// The tools the items describe, skipping those that describe none.
pub open spec fn tools_in(items: Seq<JsonView>) -> Seq<ToolModel>
    decreases items.len(),
{
    if items.len() == 0 {
        Seq::empty()
    } else {
        match tool_of(items.last()) {
            Some(t) => tools_in(items.drop_last()).push(t),
            None => tools_in(items.drop_last()),
        }
    }
}

/// The tools of a `tools/list` reply: its `tools` array must be there.
pub open spec fn tools_of(reply: JsonView) -> Result<Seq<ToolModel>, Seq<char>> {
    match reply {
        JsonView::Object(entries) => match view_entry(entries, "tools"@) {
            Some(JsonView::Array(items)) => Ok(tools_in(items)),
            _ => Err("invalid tools/list response"@),
        },
        _ => Err("invalid tools/list response"@),
    }
}

fn defaulted_text_of(v: Option<&JsonValue>) -> (r: Option<String>)
    ensures
        match defaulted_text(
            match v {
                Some(x) => Some(json_view(*x)),
                None => None,
            },
        ) {
            Some(t) => r matches Some(s) && s@ == t,
            None => r is None,
        },
{
    match v {
        None => Some(String::new()),
        Some(JsonValue::String(s)) => Some(copy_string(s)),
        _ => None,
    }
}

fn tool_from(t: &JsonValue) -> (r: Option<McpToolDescriptor>)
    ensures
        match tool_of(json_view(*t)) {
            Some(m) => r matches Some(d) && tool_model(d) == m,
            None => r is None,
        },
{
    match t {
        JsonValue::Object(entries) => {
            proof {
                lemma_view_entry(entries@, "name"@);
                lemma_view_entry(entries@, "description"@);
                lemma_view_entry(entries@, "input_schema"@);
            }
            let name = match get(t, &chars_of("name")) {
                Some(JsonValue::String(n)) => copy_string(n),
                _ => {
                    return None;
                },
            };
            let description = match defaulted_text_of(get(t, &chars_of("description"))) {
                Some(d) => d,
                None => {
                    return None;
                },
            };
            let input_schema = match get(t, &chars_of("input_schema")) {
                Some(s) => copy_json(s),
                None => JsonValue::Null,
            };
            Some(McpToolDescriptor { name, description, input_schema })
        },
        JsonValue::Array(items) => {
            proof {
                lemma_items_view(items@);
            }
            if items.len() < 1 || items.len() > 3 {
                return None;
            }
            let name = match &items[0] {
                JsonValue::String(n) => copy_string(n),
                _ => {
                    return None;
                },
            };
            let description = match defaulted_text_of(if items.len() >= 2 { Some(&items[1]) } else { None }) {
                Some(d) => d,
                None => {
                    return None;
                },
            };
            let input_schema = if items.len() == 3 {
                copy_json(&items[2])
            } else {
                JsonValue::Null
            };
            Some(McpToolDescriptor { name, description, input_schema })
        },
        _ => None,
    }
}

/// The tools of a `tools/list` reply (see `tools_of`).
pub fn server_tools(reply: &JsonValue) -> (r: Result<Vec<McpToolDescriptor>, String>)
    ensures
        match tools_of(json_view(*reply)) {
            Ok(ts) => r matches Ok(v) && tool_models(v@) == ts,
            Err(m) => r matches Err(e) && e@ == m,
        },
{
    let items = match reply {
        JsonValue::Object(entries) => {
            proof {
                lemma_view_entry(entries@, "tools"@);
            }
            match get(reply, &chars_of("tools")) {
                Some(JsonValue::Array(items)) => items,
                _ => {
                    return Err(lit("invalid tools/list response"));
                },
            }
        },
        _ => {
            return Err(lit("invalid tools/list response"));
        },
    };
    proof {
        lemma_items_view(items@);
    }
    let ghost iv = items_view(items@);
    let mut out: Vec<McpToolDescriptor> = Vec::new();
    let mut i: usize = 0;
    assert(iv.take(0) =~= Seq::<JsonView>::empty());
    assert(tool_models(out@) =~= Seq::<ToolModel>::empty());
    while i < items.len()
        invariant
            i <= items.len(),
            iv == items_view(items@),
            iv.len() == items@.len(),
            forall|j: int| 0 <= j < items@.len() ==> #[trigger] iv[j] == json_view(items@[j]),
            tool_models(out@) == tools_in(iv.take(i as int)),
        decreases items.len() - i,
    {
        assert(iv.take(i + 1).drop_last() =~= iv.take(i as int));
        assert(iv.take(i + 1).last() == json_view(items@[i as int]));
        if let Some(t) = tool_from(&items[i]) {
            let ghost before = out@;
            out.push(t);
            assert(tool_models(out@) =~= tool_models(before).push(tool_model(t)));
        }
        i += 1;
    }
    assert(iv.take(items.len() as int) =~= iv);
    Ok(out)
}

/// A cached tool: the server that offers it and the tool.
#[derive(Debug)]
pub struct McpToolEntry {
    pub server_id: String,
    pub server_name: String,
    pub tool_name: String,
    pub description: String,
    pub input_schema: JsonValue,
}

pub open spec fn entry_model(e: McpToolEntry) -> (Seq<char>, Seq<char>, ToolModel) {
    (e.server_id@, e.server_name@, (e.tool_name@, e.description@, json_view(e.input_schema)))
}

pub open spec fn entry_models(v: Seq<McpToolEntry>) -> Seq<(Seq<char>, Seq<char>, ToolModel)> {
    Seq::new(v.len(), |i: int| entry_model(v[i]))
}

/// The cache entries of a server's tools, in order.
pub fn tool_entries(server: &McpServerConfig, tools: Vec<McpToolDescriptor>) -> (r: Vec<McpToolEntry>)
    ensures
        entry_models(r@) == Seq::new(tools@.len(), |i: int| (server.id@, server.name@, tool_model(tools@[i]))),
{
    let ghost tv = tool_models(tools@);
    let ghost n = tools@.len();
    let mut rest = tools;
    let mut back: Vec<McpToolEntry> = Vec::new();
    // Taken from the back, then put in order.
    while rest.len() > 0
        invariant
            rest@.len() + back@.len() == n,
            forall|i: int| 0 <= i < rest@.len() ==> #[trigger] tool_model(rest@[i]) == tv[i],
            forall|k: int| 0 <= k < back@.len() ==> #[trigger] entry_model(back@[k]) == (server.id@, server.name@, tv[n - 1 - k]),
            tv.len() == n,
        decreases rest.len(),
    {
        let ghost before = rest@;
        let t = rest.pop().unwrap();
        assert(rest@ =~= before.drop_last());
        assert(tool_model(t) == tv[before.len() - 1]);
        back.push(McpToolEntry {
            server_id: copy_string(&server.id),
            server_name: copy_string(&server.name),
            tool_name: t.name,
            description: t.description,
            input_schema: t.input_schema,
        });
    }
    let mut out: Vec<McpToolEntry> = Vec::new();
    while back.len() > 0
        invariant
            out@.len() + back@.len() == n,
            forall|k: int| 0 <= k < back@.len() ==> #[trigger] entry_model(back@[k]) == (server.id@, server.name@, tv[n - 1 - k]),
            forall|k: int| 0 <= k < out@.len() ==> #[trigger] entry_model(out@[k]) == (server.id@, server.name@, tv[k]),
            tv.len() == n,
        decreases back.len(),
    {
        let ghost before = back@;
        let e = back.pop().unwrap();
        assert(back@ =~= before.drop_last());
        assert(entry_model(e) == (server.id@, server.name@, tv[n - 1 - (before.len() - 1)]));
        out.push(e);
    }
    assert(entry_models(out@) =~= Seq::new(n, |i: int| (server.id@, server.name@, tool_model(tools@[i]))));
    out
}

} // verus!
