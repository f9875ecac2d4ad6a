//! MCP (Model Context Protocol) servers: the configured list, where it is
//! stored, and the framing of the JSON-RPC messages exchanged with a server
//! over its standard streams.
//!
//! Spawning servers, the streams and the JSON are the caller's business.
use vstd::prelude::*;

use crate::listing::item_views;
use crate::order::{appears, is_permutation, key_views, picks, sort_indices, sorted_stably};
use crate::preferences::join_path;
use crate::text::{
    append_str, append_vec, chars_of, copy_string, copy_strings, decimal, decimal_vec,
    eq_ignore_case, eq_ignore_case_vec, is_digit, lower, lower_vec, parse_unsigned,
    parse_unsigned_vec, seq_eq, split_once, split_once_vec, string_of, trim, trim_vec, trimmed,
    views, is_alnum, trim_matches, trim_matches_vec, lit,
};

verus! {

// ---------------------------------------------------------------------------
// Server configurations
// ---------------------------------------------------------------------------

/// A configured MCP server: the command that starts it, with its arguments
/// and extra environment variables.
#[derive(Debug)]
pub struct McpServerConfig {
    pub id: String,
    pub name: String,
    pub command: String,
    pub args: Vec<String>,
    /// Extra environment variables as (name, value) pairs; the caller's map
    /// holds each name once (`env_names_distinct`), and the list is kept as
    /// given.
    pub env: Vec<(String, String)>,
    pub enabled: bool,
}

pub struct McpServerModel {
    pub id: Seq<char>,
    pub name: Seq<char>,
    pub command: Seq<char>,
    pub args: Seq<Seq<char>>,
    pub env: Seq<(Seq<char>, Seq<char>)>,
    pub enabled: bool,
}

pub open spec fn env_views(v: Seq<(String, String)>) -> Seq<(Seq<char>, Seq<char>)> {
    Seq::new(v.len(), |i: int| (v[i].0@, v[i].1@))
}

/// No variable name occurs twice among the pairs.
pub open spec fn env_names_distinct(env: Seq<(Seq<char>, Seq<char>)>) -> bool {
    forall|i: int, j: int|
        0 <= i < env.len() && 0 <= j < env.len() && i != j ==> (#[trigger] env[i]).0 != (
        #[trigger] env[j]).0
}

impl View for McpServerConfig {
    type V = McpServerModel;

    open spec fn view(&self) -> McpServerModel {
        McpServerModel {
            id: self.id@,
            name: self.name@,
            command: self.command@,
            args: views(self.args@),
            env: env_views(self.env@),
            enabled: self.enabled,
        }
    }
}

impl McpServerConfig {
    pub fn copy(&self) -> (r: McpServerConfig)
        ensures
            r@ == self@,
    {
        let mut env: Vec<(String, String)> = Vec::new();
        let mut i: usize = 0;
        while i < self.env.len()
            invariant
                i <= self.env.len(),
                env@.len() == i,
                forall|k: int| 0 <= k < i ==> (#[trigger] env@[k]).0@ == self.env@[k].0@ && env@[k].1@ == self.env@[k].1@,
            decreases self.env.len() - i,
        {
            env.push((copy_string(&self.env[i].0), copy_string(&self.env[i].1)));
            i += 1;
        }
        assert(env_views(env@) =~= env_views(self.env@));
        McpServerConfig {
            id: copy_string(&self.id),
            name: copy_string(&self.name),
            command: copy_string(&self.command),
            args: copy_strings(&self.args),
            env,
            enabled: self.enabled,
        }
    }
}

/// The servers whose id is not `id`, in order.
pub open spec fn without_server(ss: Seq<McpServerModel>, id: Seq<char>) -> Seq<McpServerModel>
    decreases ss.len(),
{
    if ss.len() == 0 {
        ss
    } else if ss.last().id == id {
        without_server(ss.drop_last(), id)
    } else {
        without_server(ss.drop_last(), id).push(ss.last())
    }
}

pub open spec fn name_keys(ss: Seq<McpServerModel>) -> Seq<Seq<char>> {
    Seq::new(ss.len(), |i: int| lower(ss[i].name))
}

/// `out` is `src` stably sorted by ASCII-lower-cased name.
pub open spec fn sorted_by_name(src: Seq<McpServerModel>, out: Seq<McpServerModel>) -> bool {
    exists|idx: Seq<usize>|
        is_permutation(idx, src.len()) && sorted_stably(name_keys(src), idx, false) && #[trigger] picks(src, out, idx)
}

fn keep_others(servers: &Vec<McpServerConfig>, id: &Vec<char>) -> (r: Vec<McpServerConfig>)
    ensures
        item_views(r@) == without_server(item_views(servers@), id@),
{
    let ghost sv = item_views(servers@);
    let mut out: Vec<McpServerConfig> = Vec::new();
    let mut i: usize = 0;
    assert(sv.take(0) =~= Seq::<McpServerModel>::empty());
    while i < servers.len()
        invariant
            i <= servers.len(),
            sv == item_views(servers@),
            item_views(out@) == without_server(sv.take(i as int), id@),
        decreases servers.len() - i,
    {
        assert(sv.take(i + 1).drop_last() =~= sv.take(i as int));
        let have = chars_of(servers[i].id.as_str());
        if !seq_eq(&have, id) {
            let ghost prev = out@;
            out.push(servers[i].copy());
            assert(item_views(out@) =~= item_views(prev).push(sv[i as int]));
        }
        i += 1;
    }
    assert(sv.take(servers.len() as int) =~= sv);
    out
}

fn sort_by_name(servers: &Vec<McpServerConfig>) -> (r: Vec<McpServerConfig>)
    ensures
        sorted_by_name(item_views(servers@), item_views(r@)),
{
    let ghost sv = item_views(servers@);
    let mut keys: Vec<Vec<char>> = Vec::new();
    let mut i: usize = 0;
    while i < servers.len()
        invariant
            i <= servers.len(),
            sv == item_views(servers@),
            keys@.len() == i,
            forall|k: int| 0 <= k < i ==> #[trigger] keys@[k]@ == name_keys(sv)[k],
        decreases servers.len() - i,
    {
        keys.push(lower_vec(&chars_of(servers[i].name.as_str())));
        i += 1;
    }
    assert(key_views(keys@) =~= name_keys(sv));
    let idx = sort_indices(&keys, false);
    let mut out: Vec<McpServerConfig> = Vec::new();
    let mut q: usize = 0;
    while q < idx.len()
        invariant
            q <= idx.len(),
            idx@.len() == servers@.len(),
            sv == item_views(servers@),
            forall|m: int| 0 <= m < idx@.len() ==> #[trigger] idx@[m] < servers@.len(),
            out@.len() == q,
            forall|m: int| 0 <= m < q ==> #[trigger] out@[m]@ == sv[idx@[m] as int],
        decreases idx.len() - q,
    {
        out.push(servers[idx[q]].copy());
        q += 1;
    }
    proof {
        assert forall|k: int| 0 <= k < item_views(out@).len() implies #[trigger] item_views(out@)[k] == sv[idx@[k] as int] by {
            assert(out@[k]@ == sv[idx@[k] as int]);
        }
        assert(picks(sv, item_views(out@), idx@));
    }
    out
}

/// Adds a server, or replaces every server with its id, keeping the list
/// ordered by ASCII-lower-cased name.
pub fn upsert_mcp_server(servers: &Vec<McpServerConfig>, server: McpServerConfig) -> (r: Vec<McpServerConfig>)
    ensures
        sorted_by_name(without_server(item_views(servers@), server@.id).push(server@), item_views(r@)),
{
    let id = chars_of(server.id.as_str());
    let mut next = keep_others(servers, &id);
    let ghost prev = item_views(next@);
    let ghost sv = server@;
    next.push(server);
    assert(item_views(next@) =~= prev.push(sv));
    sort_by_name(&next)
}

/// After an upsert the list holds the new server, and no other server with
/// its id.
pub proof fn law_upsert_server_replaces(ss: Seq<McpServerModel>, s: McpServerModel, out: Seq<McpServerModel>)
    requires
        sorted_by_name(without_server(ss, s.id).push(s), out),
    ensures
        exists|k: int| 0 <= k < out.len() && #[trigger] out[k] == s,
        forall|k: int| 0 <= k < out.len() && (#[trigger] out[k]).id == s.id ==> out[k] == s,
{
    let src = without_server(ss, s.id).push(s);
    let idx = choose|idx: Seq<usize>|
        is_permutation(idx, src.len()) && sorted_stably(name_keys(src), idx, false) && #[trigger] picks(src, out, idx);
    lemma_without_server(ss, s.id);
    let last = src.len() - 1;
    assert(appears(idx, last));
    let k0 = choose|k: int| 0 <= k < idx.len() && #[trigger] idx[k] == last;
    assert(out[k0] == src[last]);
    assert forall|k: int| 0 <= k < out.len() && (#[trigger] out[k]).id == s.id implies out[k] == s by {
        let j = idx[k] as int;
        assert(out[k] == src[j]);
        if j < last {
            assert(src[j] == without_server(ss, s.id)[j]);
        }
    }
}

/// No two servers share an id.
pub open spec fn server_ids_distinct(ss: Seq<McpServerModel>) -> bool {
    forall|i: int, j: int|
        0 <= i < ss.len() && 0 <= j < ss.len() && i != j ==> (#[trigger] ss[i]).id != (
        #[trigger] ss[j]).id
}

/// An upsert into a list whose ids are distinct leaves them distinct.
pub proof fn law_upsert_keeps_ids_distinct(ss: Seq<McpServerModel>, s: McpServerModel, out: Seq<McpServerModel>)
    requires
        server_ids_distinct(ss),
        sorted_by_name(without_server(ss, s.id).push(s), out),
    ensures
        server_ids_distinct(out),
{
    let w = without_server(ss, s.id);
    let src = w.push(s);
    lemma_without_server(ss, s.id);
    lemma_without_server_distinct(ss, s.id);
    assert forall|i: int, j: int|
        0 <= i < src.len() && 0 <= j < src.len() && i != j implies (#[trigger] src[i]).id != (
        #[trigger] src[j]).id by {
        if i < w.len() && j < w.len() {
            assert(src[i] == w[i] && src[j] == w[j]);
        } else if i < w.len() {
            assert(src[i] == w[i]);
        } else {
            assert(src[j] == w[j]);
        }
    }
    let idx = choose|idx: Seq<usize>|
        is_permutation(idx, src.len()) && sorted_stably(name_keys(src), idx, false) && #[trigger] picks(src, out, idx);
    assert forall|a: int, b: int|
        0 <= a < out.len() && 0 <= b < out.len() && a != b implies (#[trigger] out[a]).id != (
        #[trigger] out[b]).id by {
        assert(out[a] == src[idx[a] as int]);
        assert(out[b] == src[idx[b] as int]);
        if a < b {
            assert(idx[a] != idx[b]);
        } else {
            assert(idx[b] != idx[a]);
        }
    }
}

proof fn lemma_without_server_from(ss: Seq<McpServerModel>, id: Seq<char>, k: int)
    requires
        0 <= k < without_server(ss, id).len(),
    ensures
        exists|j: int| 0 <= j < ss.len() && ss[j] == without_server(ss, id)[k],
    decreases ss.len(),
{
    let d = ss.drop_last();
    let w = without_server(d, id);
    lemma_without_server(d, id);
    if k < w.len() {
        lemma_without_server_from(d, id, k);
        let j = choose|j: int| 0 <= j < d.len() && d[j] == w[k];
        assert(ss[j] == d[j]);
        if ss.last().id != id {
            assert(without_server(ss, id)[k] == w[k]);
        }
    } else {
        assert(ss[ss.len() - 1] == without_server(ss, id)[k]);
    }
}

proof fn lemma_without_server_distinct(ss: Seq<McpServerModel>, id: Seq<char>)
    requires
        server_ids_distinct(ss),
    ensures
        server_ids_distinct(without_server(ss, id)),
    decreases ss.len(),
{
    if ss.len() > 0 {
        let d = ss.drop_last();
        assert forall|i: int, j: int|
            0 <= i < d.len() && 0 <= j < d.len() && i != j implies (#[trigger] d[i]).id != (
            #[trigger] d[j]).id by {
            assert(d[i] == ss[i] && d[j] == ss[j]);
        }
        lemma_without_server_distinct(d, id);
        let w = without_server(d, id);
        if ss.last().id != id {
            let r = w.push(ss.last());
            assert forall|i: int, j: int|
                0 <= i < r.len() && 0 <= j < r.len() && i != j implies (#[trigger] r[i]).id != (
                #[trigger] r[j]).id by {
                if i < w.len() && j < w.len() {
                    assert(r[i] == w[i] && r[j] == w[j]);
                } else if i < w.len() {
                    lemma_without_server_from(d, id, i);
                    let x = choose|x: int| 0 <= x < d.len() && d[x] == w[i];
                    assert(ss[x] == r[i]);
                    assert(ss[ss.len() - 1] == r[j]);
                } else {
                    lemma_without_server_from(d, id, j);
                    let x = choose|x: int| 0 <= x < d.len() && d[x] == w[j];
                    assert(ss[x] == r[j]);
                    assert(ss[ss.len() - 1] == r[i]);
                }
            }
        }
    }
}

pub proof fn lemma_without_server(ss: Seq<McpServerModel>, id: Seq<char>)
    ensures
        forall|k: int| 0 <= k < without_server(ss, id).len() ==> (#[trigger] without_server(ss, id)[k]).id != id,
        without_server(ss, id).len() <= ss.len(),
    decreases ss.len(),
{
    if ss.len() > 0 {
        lemma_without_server(ss.drop_last(), id);
        let w = without_server(ss.drop_last(), id);
        if ss.last().id != id {
            assert forall|k: int| 0 <= k < w.push(ss.last()).len() implies (#[trigger] w.push(ss.last())[k]).id != id by {
                if k < w.len() {
                    assert(w.push(ss.last())[k] == w[k]);
                }
            }
        }
    }
}

/// Removes every server with the id; `None` when there is none.
pub fn remove_mcp_server(servers: &Vec<McpServerConfig>, server_id: &str) -> (r: Option<Vec<McpServerConfig>>)
    ensures
        without_server(item_views(servers@), server_id@).len() == servers@.len() <==> r is None,
        r matches Some(v) ==> item_views(v@) == without_server(item_views(servers@), server_id@),
{
    let id = chars_of(server_id);
    let next = keep_others(servers, &id);
    if next.len() == servers.len() {
        None
    } else {
        Some(next)
    }
}

/// The first enabled server with the id.
pub open spec fn enabled_server_from(ss: Seq<McpServerModel>, id: Seq<char>, i: int) -> int
    decreases ss.len() - i,
{
    if i < 0 || i >= ss.len() {
        -1
    } else if ss[i].id == id && ss[i].enabled {
        i
    } else {
        enabled_server_from(ss, id, i + 1)
    }
}

/// The first enabled server with the id, or the error that names it.
pub fn find_enabled_server(servers: &Vec<McpServerConfig>, server_id: &str) -> (r: Result<McpServerConfig, String>)
    ensures
        enabled_server_from(item_views(servers@), server_id@, 0) >= 0 ==> (r matches Ok(s)
            && s@ == item_views(servers@)[enabled_server_from(item_views(servers@), server_id@, 0)]),
        enabled_server_from(item_views(servers@), server_id@, 0) < 0 ==> (r matches Err(m)
            && m@ == "mcp server not found or disabled: "@ + server_id@),
{
    let ghost sv = item_views(servers@);
    let id = chars_of(server_id);
    let mut i: usize = 0;
    while i < servers.len()
        invariant
            i <= servers.len(),
            sv == item_views(servers@),
            id@ == server_id@,
            enabled_server_from(sv, id@, 0) == enabled_server_from(sv, id@, i as int),
        decreases servers.len() - i,
    {
        assert(sv[i as int] == servers@[i as int]@);
        let have = chars_of(servers[i].id.as_str());
        if seq_eq(&have, &id) && servers[i].enabled {
            return Ok(servers[i].copy());
        }
        i += 1;
    }
    let mut m = chars_of("mcp server not found or disabled: ");
    append_str(&mut m, server_id);
    Err(string_of(&m))
}

// ---------------------------------------------------------------------------
// Where the lists are stored
// ---------------------------------------------------------------------------

/// The app's data directory: `ORCHESTRIX_DATA_DIR` when set to something
/// other than blanks (trimmed), else `.orchestrix` under `HOME`, then under
/// `USERPROFILE`, else `.orchestrix` in the working directory.
pub open spec fn data_dir_of(data_var: Option<Seq<char>>, home: Option<Seq<char>>, profile: Option<Seq<char>>) -> Seq<char> {
    if data_var is Some && trim(data_var->0).len() > 0 {
        trim(data_var->0)
    } else if home is Some {
        join_path(home->0, ".orchestrix"@)
    } else if profile is Some {
        join_path(profile->0, ".orchestrix"@)
    } else {
        ".orchestrix"@
    }
}

/// The app's data directory from the environment variables that are set.
pub fn data_dir(data_var: Option<&str>, home: Option<&str>, profile: Option<&str>) -> (r: String)
    ensures
        r@ == data_dir_of(crate::text::opt_str_view(data_var), crate::text::opt_str_view(home), crate::text::opt_str_view(profile)),
{
    if let Some(d) = data_var {
        let t = trimmed(d);
        if t.len() > 0 {
            return string_of(&t);
        }
    }
    if let Some(h) = home {
        return string_of(&crate::preferences::join_path_vec(&chars_of(h), &chars_of(".orchestrix")));
    }
    if let Some(p) = profile {
        return string_of(&crate::preferences::join_path_vec(&chars_of(p), &chars_of(".orchestrix")));
    }
    String::from_str(".orchestrix")
}

/// The file that stores the server list.
pub fn mcp_servers_path(data_dir: &str) -> (r: String)
    ensures
        r@ == join_path(data_dir@, "mcp-servers-v1.json"@),
{
    string_of(&crate::preferences::join_path_vec(&chars_of(data_dir), &chars_of("mcp-servers-v1.json")))
}

/// The file that caches the servers' tools.
pub fn mcp_tools_cache_path(data_dir: &str) -> (r: String)
    ensures
        r@ == join_path(data_dir@, "mcp-tools-cache-v1.json"@),
{
    string_of(&crate::preferences::join_path_vec(&chars_of(data_dir), &chars_of("mcp-tools-cache-v1.json")))
}

// ---------------------------------------------------------------------------
// Message framing
// ---------------------------------------------------------------------------

/// The header sent before a JSON-RPC message body of `len` bytes.
pub fn content_length_header(len: usize) -> (r: String)
    ensures
        r@ == "Content-Length: "@ + decimal(len as nat) + "\r\n\r\n"@,
{
    let mut out = chars_of("Content-Length: ");
    append_vec(&mut out, &decimal_vec(len as u64));
    append_str(&mut out, "\r\n\r\n");
    string_of(&out)
}

/// What reading one header line leads to: more header lines (with the body
/// length known so far), the body (of the given length), or a failure.
#[derive(Debug)]
pub enum HeaderStep {
    Continue(usize),
    Body(usize),
    Fail(String),
}

/// `str::parse::<usize>`, with the error rendered as text.
///
/// std documents the accepted form (an optional `+`, then decimal digits,
/// with a value that fits); the contract states exactly when the parse
/// succeeds and its value.  The error's wording is std's and is not stated.
#[verifier::external_body]
fn parse_usize(s: &str) -> (r: Result<usize, String>)
    ensures
        match parse_unsigned(s@, usize::MAX as nat) {
            Some(n) => r == Ok::<usize, String>(n as usize),
            None => r is Err,
        },
{
    s.parse::<usize>().map_err(|e| e.to_string())
}

/// Drops trailing `\r` and `\n` characters.
pub open spec fn strip_line_end(s: Seq<char>) -> Seq<char>
    decreases s.len(),
{
    if s.len() > 0 && (s.last() == '\r' || s.last() == '\n') {
        strip_line_end(s.drop_last())
    } else {
        s
    }
}

/// The outcome of a header line, as far as it does not depend on the text
/// of a number-parsing error: `Continue`, `Body`, or a failure whose message
/// starts with the given text (`complete` when that is the whole message).
pub enum StepKind {
    Continue(nat),
    Body(nat),
    Fail(Seq<char>, bool),
}

/// One header line as read from the stream, with its line end; an empty
/// line means the stream ended.
pub open spec fn header_step_spec(known: nat, line: Seq<char>) -> StepKind {
    let t = strip_line_end(line);
    if line.len() == 0 {
        StepKind::Fail("unexpected EOF while reading MCP headers"@, true)
    } else if t.len() == 0 {
        if known == 0 {
            StepKind::Fail("missing content-length in MCP response"@, true)
        } else {
            StepKind::Body(known)
        }
    } else {
        match split_once(t, ':') {
            Some((k, v)) => if eq_ignore_case(k, "Content-Length"@) {
                match parse_unsigned(trim(v), usize::MAX as nat) {
                    Some(n) => StepKind::Continue(n),
                    None => StepKind::Fail("invalid content-length: "@, false),
                }
            } else {
                StepKind::Continue(known)
            },
            None => StepKind::Continue(known),
        }
    }
}

pub open spec fn step_matches(r: HeaderStep, k: StepKind) -> bool {
    match k {
        StepKind::Continue(n) => r matches HeaderStep::Continue(m) && m == n,
        StepKind::Body(n) => r matches HeaderStep::Body(m) && m == n,
        StepKind::Fail(msg, complete) => r matches HeaderStep::Fail(m) && (if complete {
            m@ == msg
        } else {
            m@.len() >= msg.len() && m@.take(msg.len() as int) == msg
        }),
    }
}

fn strip_line_end_vec(v: &Vec<char>) -> (r: Vec<char>)
    ensures
        r@ == strip_line_end(v@),
{
    let mut b: usize = v.len();
    assert(v@.take(v.len() as int) =~= v@);
    while b > 0 && (v[b - 1] == '\r' || v[b - 1] == '\n')
        invariant
            b <= v.len(),
            strip_line_end(v@) == strip_line_end(v@.take(b as int)),
        decreases b,
    {
        assert(v@.take(b as int).drop_last() =~= v@.take(b - 1));
        b -= 1;
    }
    let r = crate::text::slice_vec(v, 0, b);
    assert(v@.subrange(0, b as int) =~= v@.take(b as int));
    r
}

/// Reads one header line of a server message, given the body length known
/// so far.
pub fn header_step(known: usize, line: &str) -> (r: HeaderStep)
    ensures
        step_matches(r, header_step_spec(known as nat, line@)),
{
    let l = chars_of(line);
    if l.len() == 0 {
        return HeaderStep::Fail(String::from_str("unexpected EOF while reading MCP headers"));
    }
    let t = strip_line_end_vec(&l);
    if t.len() == 0 {
        if known == 0 {
            return HeaderStep::Fail(String::from_str("missing content-length in MCP response"));
        }
        return HeaderStep::Body(known);
    }
    match split_once_vec(&t, ':') {
        Some((k, v)) => {
            if eq_ignore_case_vec(&k, &chars_of("Content-Length")) {
                let value = string_of(&trim_vec(&v));
                match parse_usize(value.as_str()) {
                    Ok(n) => HeaderStep::Continue(n),
                    Err(e) => {
                        let mut m = chars_of("invalid content-length: ");
                        append_str(&mut m, e.as_str());
                        let ghost p = "invalid content-length: "@;
                        assert(m@.take(p.len() as int) =~= p);
                        HeaderStep::Fail(string_of(&m))
                    },
                }
            } else {
                HeaderStep::Continue(known)
            }
        },
        None => HeaderStep::Continue(known),
    }
}

// ---------------------------------------------------------------------------
// Server ids
// ---------------------------------------------------------------------------

/// One character of an id being built: ASCII letters and digits are kept,
/// and each run of other characters becomes a single dash.
pub open spec fn slug_step(acc: (Seq<char>, bool), c: char) -> (Seq<char>, bool) {
    if is_alnum(c) {
        (acc.0.push(c), false)
    } else if !acc.1 {
        (acc.0.push('-'), true)
    } else {
        acc
    }
}

pub open spec fn slug_fold(s: Seq<char>) -> (Seq<char>, bool)
    decreases s.len(),
{
    if s.len() == 0 {
        (Seq::empty(), false)
    } else {
        slug_step(slug_fold(s.drop_last()), s.last())
    }
}

/// An id made of a name: trimmed, in ASCII lower case, with runs of other
/// characters as dashes, and no dash at either end.
pub open spec fn sanitized_id(raw: Seq<char>) -> Seq<char> {
    trim_matches(slug_fold(lower(trim(raw))).0, '-')
}

pub fn sanitize_id(raw: &str) -> (r: String)
    ensures
        r@ == sanitized_id(raw@),
{
    let s = lower_vec(&trimmed(raw));
    let mut out: Vec<char> = Vec::new();
    let mut last_dash = false;
    let mut i: usize = 0;
    assert(s@.take(0) =~= Seq::<char>::empty());
    while i < s.len()
        invariant
            i <= s.len(),
            (out@, last_dash) == slug_fold(s@.take(i as int)),
        decreases s.len() - i,
    {
        assert(s@.take(i + 1).drop_last() =~= s@.take(i as int));
        assert(s@.take(i + 1).last() == s@[i as int]);
        let c = s[i];
        if crate::text::is_ascii_alphanumeric(c) {
            out.push(c);
            last_dash = false;
        } else if !last_dash {
            out.push('-');
            last_dash = true;
        }
        i += 1;
    }
    assert(s@.take(s.len() as int) =~= s@);
    string_of(&trim_matches_vec(&out, '-'))
}

/// A server entered in the legacy form: id (optional), name, command,
/// arguments, environment and whether it is enabled.
#[derive(Debug)]
pub struct LegacyMcpServerInput {
    pub id: Option<String>,
    pub name: String,
    pub command: String,
    pub args: Option<Vec<String>>,
    pub env: Option<Vec<(String, String)>>,
    pub enabled: Option<bool>,
}

/// The id of a legacy entry: its own id made an id, unless that is empty,
/// else its name made an id.
pub open spec fn legacy_id(id: Option<Seq<char>>, name: Seq<char>) -> Seq<char> {
    match id {
        Some(i) => if sanitized_id(i).len() > 0 {
            sanitized_id(i)
        } else {
            sanitized_id(trim(name))
        },
        None => sanitized_id(trim(name)),
    }
}

/// The configuration of a legacy entry, or why it is refused: the name and
/// the command are required (trimmed), and an id must come out of them.
pub fn legacy_server_config(input: LegacyMcpServerInput) -> (r: Result<McpServerConfig, String>)
    ensures
        trim(input.name@).len() == 0 ==> (r matches Err(e) && e@ == "name is required"@),
        trim(input.name@).len() > 0 && trim(input.command@).len() == 0 ==> (r matches Err(e) && e@
            == "command is required"@),
        trim(input.name@).len() > 0 && trim(input.command@).len() > 0 ==> {
            let id = legacy_id(crate::text::opt_view(input.id), input.name@);
            if id.len() == 0 {
                (r matches Err(e) && e@ == "could not derive valid id"@)
            } else {
                (r matches Ok(c) && {
                    &&& c.id@ == id
                    &&& c.name@ == trim(input.name@)
                    &&& c.command@ == trim(input.command@)
                    &&& views(c.args@) == match input.args {
                        Some(a) => views(a@),
                        None => Seq::<Seq<char>>::empty(),
                    }
                    &&& env_views(c.env@) == match input.env {
                        Some(e) => env_views(e@),
                        None => Seq::<(Seq<char>, Seq<char>)>::empty(),
                    }
                    &&& c.enabled == match input.enabled {
                        Some(b) => b,
                        None => true,
                    }
                })
            }
        },
{
    let name = trimmed(input.name.as_str());
    let command = trimmed(input.command.as_str());
    if name.len() == 0 {
        return Err(lit("name is required"));
    }
    if command.len() == 0 {
        return Err(lit("command is required"));
    }
    let name_s = string_of(&name);
    let own = match &input.id {
        Some(i) => sanitize_id(i.as_str()),
        None => String::new(),
    };
    let id = if input.id.is_some() && chars_of(own.as_str()).len() > 0 {
        own
    } else {
        sanitize_id(name_s.as_str())
    };
    if chars_of(id.as_str()).len() == 0 {
        return Err(lit("could not derive valid id"));
    }
    let args = match input.args {
        Some(a) => a,
        None => {
            let v: Vec<String> = Vec::new();
            assert(views(v@) =~= Seq::<Seq<char>>::empty());
            v
        },
    };
    let env = match input.env {
        Some(e) => e,
        None => {
            let v: Vec<(String, String)> = Vec::new();
            assert(env_views(v@) =~= Seq::<(Seq<char>, Seq<char>)>::empty());
            v
        },
    };
    Ok(McpServerConfig {
        id,
        name: name_s,
        command: string_of(&command),
        args,
        env,
        enabled: match input.enabled {
            Some(b) => b,
            None => true,
        },
    })
}

} // verus!
