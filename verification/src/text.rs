//! Character-level text model shared by the parsers of this crate.
//!
//! Every string is modelled by its sequence of characters (`s@`).  The spec
//! functions below state what the usual `str` helpers compute; the executable
//! functions work on `Vec<char>` and are proved against them.
use vstd::prelude::*;

verus! {

// ---------------------------------------------------------------------------
// Character classes
// ---------------------------------------------------------------------------

/// Unicode `White_Space` (what `char::is_whitespace` and `str::trim` use).
pub open spec fn is_ws(c: char) -> bool {
    let u = c as u32;
    ||| u == 0x20
    ||| (0x09 <= u && u <= 0x0D)
    ||| u == 0x85
    ||| u == 0xA0
    ||| u == 0x1680
    ||| (0x2000 <= u && u <= 0x200A)
    ||| u == 0x2028
    ||| u == 0x2029
    ||| u == 0x202F
    ||| u == 0x205F
    ||| u == 0x3000
}

/// ASCII whitespace as `char::is_ascii_whitespace` defines it.
pub open spec fn is_ascii_ws(c: char) -> bool {
    c == ' ' || c == '\t' || c == '\n' || c == '\x0C' || c == '\r'
}

pub open spec fn is_digit(c: char) -> bool {
    '0' <= c && c <= '9'
}

pub open spec fn is_alnum(c: char) -> bool {
    ('a' <= c && c <= 'z') || ('A' <= c && c <= 'Z') || is_digit(c)
}

pub open spec fn lower_char(c: char) -> char {
    if 'A' <= c && c <= 'Z' {
        ((c as u32) + 32) as char
    } else {
        c
    }
}

pub open spec fn upper_char(c: char) -> char {
    if 'a' <= c && c <= 'z' {
        ((c as u32) - 32) as char
    } else {
        c
    }
}

pub fn is_whitespace(c: char) -> (r: bool)
    ensures
        r == is_ws(c),
{
    let u = c as u32;
    u == 0x20 || (0x09 <= u && u <= 0x0D) || u == 0x85 || u == 0xA0 || u == 0x1680 || (0x2000
        <= u && u <= 0x200A) || u == 0x2028 || u == 0x2029 || u == 0x202F || u == 0x205F || u
        == 0x3000
}

pub fn is_ascii_whitespace(c: char) -> (r: bool)
    ensures
        r == is_ascii_ws(c),
{
    c == ' ' || c == '\t' || c == '\n' || c == '\x0C' || c == '\r'
}

pub fn is_ascii_digit(c: char) -> (r: bool)
    ensures
        r == is_digit(c),
{
    '0' <= c && c <= '9'
}

pub fn is_ascii_alphanumeric(c: char) -> (r: bool)
    ensures
        r == is_alnum(c),
{
    ('a' <= c && c <= 'z') || ('A' <= c && c <= 'Z') || ('0' <= c && c <= '9')
}

pub fn to_lower_char(c: char) -> (r: char)
    ensures
        r == lower_char(c),
{
    if 'A' <= c && c <= 'Z' {
        let b: u8 = (c as u8) + 32;
        b as char
    } else {
        c
    }
}

pub fn to_upper_char(c: char) -> (r: char)
    ensures
        r == upper_char(c),
{
    if 'a' <= c && c <= 'z' {
        let b: u8 = (c as u8) - 32;
        b as char
    } else {
        c
    }
}

// ---------------------------------------------------------------------------
// Whole-string maps
// ---------------------------------------------------------------------------

/// `str::to_ascii_lowercase`.
pub open spec fn lower(s: Seq<char>) -> Seq<char> {
    Seq::new(s.len(), |i: int| lower_char(s[i]))
}

/// Upper-cases the first character (ASCII), keeps the rest.
pub open spec fn capitalize(s: Seq<char>) -> Seq<char> {
    if s.len() == 0 {
        s
    } else {
        s.update(0, upper_char(s[0]))
    }
}

/// Replaces every occurrence of `from` with `to`.
pub open spec fn replace_char(s: Seq<char>, from: char, to: char) -> Seq<char> {
    Seq::new(s.len(), |i: int| if s[i] == from { to } else { s[i] })
}

pub fn lower_vec(v: &Vec<char>) -> (r: Vec<char>)
    ensures
        r@ == lower(v@),
{
    let mut out: Vec<char> = Vec::new();
    let mut i: usize = 0;
    while i < v.len()
        invariant
            i <= v.len(),
            out@ =~= lower(v@).take(i as int),
        decreases v.len() - i,
    {
        let c = to_lower_char(v[i]);
        out.push(c);
        i += 1;
    }
    out
}

pub fn capitalize_vec(v: &Vec<char>) -> (r: Vec<char>)
    ensures
        r@ == capitalize(v@),
{
    let mut out = v.clone();
    if out.len() > 0 {
        let c = to_upper_char(v[0]);
        out.set(0, c);
    }
    out
}

pub fn replace_char_vec(v: &Vec<char>, from: char, to: char) -> (r: Vec<char>)
    ensures
        r@ == replace_char(v@, from, to),
{
    let mut out: Vec<char> = Vec::new();
    let mut i: usize = 0;
    while i < v.len()
        invariant
            i <= v.len(),
            out@ =~= replace_char(v@, from, to).take(i as int),
        decreases v.len() - i,
    {
        if v[i] == from {
            out.push(to);
        } else {
            out.push(v[i]);
        }
        i += 1;
    }
    out
}

// ---------------------------------------------------------------------------
// Conversions between `str`/`String` and `Vec<char>`
// ---------------------------------------------------------------------------

/// The characters of a string slice, in order.
pub fn chars_of(s: &str) -> (r: Vec<char>)
    ensures
        r@ == s@,
{
    let mut out: Vec<char> = Vec::new();
    for c in it: s.chars()
        invariant
            out@ == it.seq().take(it.index() as int),
            it.seq() == s@,
    {
        out.push(c);
    }
    out
}

/// Appends one character to a string: std `String::push`.
#[verifier::external_body]
pub fn push_char(s: &mut String, c: char)
    ensures
        final(s)@ == old(s)@.push(c),
{
    s.push(c);
}

/// What `str::to_lowercase` (full Unicode lower-casing) gives for a text.
pub uninterp spec fn unicode_lowercase(s: Seq<char>) -> Seq<char>;

/// std's `str::to_lowercase`: the result is the function `unicode_lowercase`
/// of the text, which the Unicode tables define; nothing more is stated.
#[verifier::external_body]
pub(crate) fn to_lowercase(s: &str) -> (r: String)
    ensures
        r@ == unicode_lowercase(s@),
{
    s.to_lowercase()
}

/// A string holding exactly the given characters.
pub fn string_of(v: &Vec<char>) -> (r: String)
    ensures
        r@ == v@,
{
    let mut out = String::new();
    let mut i: usize = 0;
    while i < v.len()
        invariant
            i <= v.len(),
            out@ == v@.take(i as int),
        decreases v.len() - i,
    {
        push_char(&mut out, v[i]);
        assert(v@.take(i as int).push(v@[i as int]) =~= v@.take(i + 1));
        i += 1;
    }
    assert(v@.take(v.len() as int) =~= v@);
    out
}

/// A string built from a literal.
pub fn lit(s: &str) -> (r: String)
    ensures
        r@ == s@,
{
    String::from_str(s)
}

pub fn strings_of(v: &Vec<Vec<char>>) -> (r: Vec<String>)
    ensures
        r@.len() == v@.len(),
        forall|i: int| 0 <= i < v@.len() ==> #[trigger] r@[i]@ == v@[i]@,
{
    let mut out: Vec<String> = Vec::new();
    let mut i: usize = 0;
    while i < v.len()
        invariant
            i <= v.len(),
            out@.len() == i,
            forall|k: int| 0 <= k < i ==> #[trigger] out@[k]@ == v@[k]@,
        decreases v.len() - i,
    {
        let s = string_of(&v[i]);
        out.push(s);
        i += 1;
    }
    out
}

/// The views of a sequence of strings.
pub open spec fn views(v: Seq<String>) -> Seq<Seq<char>> {
    Seq::new(v.len(), |i: int| v[i]@)
}

/// Copies a string's characters into a fresh string.
pub fn copy_string(s: &String) -> (r: String)
    ensures
        r@ == s@,
{
    s.clone()
}

pub fn copy_strings(v: &Vec<String>) -> (r: Vec<String>)
    ensures
        views(r@) == views(v@),
{
    let mut out: Vec<String> = Vec::new();
    let mut i: usize = 0;
    while i < v.len()
        invariant
            i <= v.len(),
            out@.len() == i,
            views(out@) =~= views(v@).take(i as int),
        decreases v.len() - i,
    {
        let s = v[i].clone();
        let ghost prev = out@;
        out.push(s);
        assert forall|k: int| 0 <= k < i + 1 implies #[trigger] views(out@)[k] == views(v@).take(i + 1)[k] by {
            if k < i {
                assert(views(prev)[k] == views(v@).take(i as int)[k]);
                assert(out@[k] == prev[k]);
            }
        }
        assert(views(out@) =~= views(v@).take(i + 1));
        i += 1;
    }
    assert(views(v@).take(v@.len() as int) =~= views(v@));
    out
}

// ---------------------------------------------------------------------------
// Sequence equality, prefixes, search
// ---------------------------------------------------------------------------

pub fn seq_eq(a: &Vec<char>, b: &Vec<char>) -> (r: bool)
    ensures
        r == (a@ == b@),
{
    if a.len() != b.len() {
        return false;
    }
    let mut i: usize = 0;
    while i < a.len()
        invariant
            i <= a.len(),
            a.len() == b.len(),
            a@.take(i as int) == b@.take(i as int),
        decreases a.len() - i,
    {
        if a[i] != b[i] {
            assert(a@[i as int] != b@[i as int]);
            return false;
        }
        assert(a@.take(i + 1) =~= a@.take(i as int).push(a@[i as int]));
        assert(b@.take(i + 1) =~= b@.take(i as int).push(b@[i as int]));
        i += 1;
    }
    assert(a@ =~= a@.take(a.len() as int));
    assert(b@ =~= b@.take(b.len() as int));
    true
}

/// Equality of a string with a character sequence.
pub fn str_eq(a: &str, b: &Vec<char>) -> (r: bool)
    ensures
        r == (a@ == b@),
{
    let av = chars_of(a);
    seq_eq(&av, b)
}

/// `p` occurs in `s` at index `i`.
pub open spec fn occurs_at(s: Seq<char>, p: Seq<char>, i: int) -> bool {
    0 <= i && i + p.len() <= s.len() && s.subrange(i, i + p.len()) == p
}

pub open spec fn starts_with(s: Seq<char>, p: Seq<char>) -> bool {
    occurs_at(s, p, 0)
}

pub open spec fn ends_with(s: Seq<char>, p: Seq<char>) -> bool {
    occurs_at(s, p, s.len() - p.len())
}

/// The first index `>= i` at which `p` occurs in `s`, or -1.
pub open spec fn find_from(s: Seq<char>, p: Seq<char>, i: int) -> int
    decreases s.len() + 1 - i,
{
    if i < 0 || i + p.len() > s.len() {
        -1
    } else if occurs_at(s, p, i) {
        i
    } else {
        find_from(s, p, i + 1)
    }
}

/// `str::find` by characters: the first index of `p` in `s`, or -1.
pub open spec fn find(s: Seq<char>, p: Seq<char>) -> int {
    find_from(s, p, 0)
}

pub open spec fn contains(s: Seq<char>, p: Seq<char>) -> bool {
    find(s, p) >= 0
}

pub proof fn lemma_find_from(s: Seq<char>, p: Seq<char>, i: int)
    requires
        0 <= i,
    ensures
        find_from(s, p, i) == -1 || (i <= find_from(s, p, i) && occurs_at(s, p, find_from(s, p, i))),
        forall|j: int| i <= j && (j < find_from(s, p, i) || find_from(s, p, i) == -1) ==> !occurs_at(s, p, j),
    decreases s.len() + 1 - i,
{
    if i + p.len() > s.len() {
    } else if occurs_at(s, p, i) {
    } else {
        lemma_find_from(s, p, i + 1);
    }
}

pub proof fn lemma_find(s: Seq<char>, p: Seq<char>)
    ensures
        find(s, p) == -1 || (0 <= find(s, p) && occurs_at(s, p, find(s, p))),
        forall|j: int| 0 <= j && (j < find(s, p) || find(s, p) == -1) ==> !occurs_at(s, p, j),
        find(s, p) >= 0 <==> exists|j: int| occurs_at(s, p, j),
{
    lemma_find_from(s, p, 0);
    if find(s, p) >= 0 {
        assert(occurs_at(s, p, find(s, p)));
    }
}

/// Whether `p` occurs in `v` at index `i`.
pub fn matches_at(v: &Vec<char>, p: &Vec<char>, i: usize) -> (r: bool)
    ensures
        r == occurs_at(v@, p@, i as int),
{
    if i > v.len() || p.len() > v.len() - i {
        return false;
    }
    let mut k: usize = 0;
    while k < p.len()
        invariant
            k <= p.len(),
            i + p.len() <= v.len(),
            v@.subrange(i as int, i + k) == p@.take(k as int),
        decreases p.len() - k,
    {
        if v[i + k] != p[k] {
            assert(v@.subrange(i as int, i + p.len())[k as int] != p@[k as int]);
            return false;
        }
        assert(v@.subrange(i as int, i + k + 1) =~= v@.subrange(i as int, i + k).push(v@[i + k]));
        assert(p@.take(k + 1) =~= p@.take(k as int).push(p@[k as int]));
        k += 1;
    }
    assert(p@.take(p.len() as int) =~= p@);
    true
}

pub fn starts_with_vec(v: &Vec<char>, p: &Vec<char>) -> (r: bool)
    ensures
        r == starts_with(v@, p@),
{
    matches_at(v, p, 0)
}

pub fn ends_with_vec(v: &Vec<char>, p: &Vec<char>) -> (r: bool)
    ensures
        r == ends_with(v@, p@),
{
    if p.len() > v.len() {
        return false;
    }
    matches_at(v, p, v.len() - p.len())
}

/// The first index of `p` in `v` at or after `from`, or -1.
/// The opt-form of an index that is -1 when absent.
pub open spec fn opt_index(i: int) -> Option<usize> {
    if i < 0 {
        None
    } else {
        Some(i as usize)
    }
}

pub fn find_vec_from(v: &Vec<char>, p: &Vec<char>, from: usize) -> (r: Option<usize>)
    ensures
        r == opt_index(find_from(v@, p@, from as int)),
{
    let mut i = from;
    while i <= v.len() && p.len() <= v.len() - i
        invariant
            from <= i,
                find_from(v@, p@, from as int) == find_from(v@, p@, i as int),
        decreases v.len() + 1 - i,
    {
        if matches_at(v, p, i) {
            return Some(i);
        }
        assert(i < v.len()) by {
            if i == v.len() {
                assert(v@.subrange(i as int, i as int) =~= p@);
            }
        }
        i += 1;
    }
    None
}

pub fn find_vec(v: &Vec<char>, p: &Vec<char>) -> (r: Option<usize>)
    ensures
        r == opt_index(find(v@, p@)),
{
    find_vec_from(v, p, 0)
}

pub fn contains_vec(v: &Vec<char>, p: &Vec<char>) -> (r: bool)
    ensures
        r == contains(v@, p@),
{
    find_vec(v, p).is_some()
}

/// The first index of `c` in `s` at or after `i`, or -1.
pub open spec fn index_of_from(s: Seq<char>, c: char, i: int) -> int
    decreases s.len() - i,
{
    if i < 0 || i >= s.len() {
        -1
    } else if s[i] == c {
        i
    } else {
        index_of_from(s, c, i + 1)
    }
}

pub open spec fn index_of(s: Seq<char>, c: char) -> int {
    index_of_from(s, c, 0)
}

/// The last index of `c` among the first `n` characters of `s`, or -1.
pub open spec fn last_index_before(s: Seq<char>, c: char, n: int) -> int
    decreases n,
{
    if n <= 0 {
        -1
    } else if s[n - 1] == c {
        n - 1
    } else {
        last_index_before(s, c, n - 1)
    }
}

pub open spec fn last_index_of(s: Seq<char>, c: char) -> int {
    last_index_before(s, c, s.len() as int)
}

pub proof fn lemma_index_of_from(s: Seq<char>, c: char, i: int)
    requires
        0 <= i,
    ensures
        index_of_from(s, c, i) == -1 || (i <= index_of_from(s, c, i) < s.len() && s[index_of_from(s, c, i)] == c),
        forall|j: int| i <= j < s.len() && (j < index_of_from(s, c, i) || index_of_from(s, c, i) == -1) ==> s[j] != c,
    decreases s.len() - i,
{
    if i < s.len() && s[i] != c {
        lemma_index_of_from(s, c, i + 1);
    }
}

pub proof fn lemma_last_index_before(s: Seq<char>, c: char, n: int)
    requires
        n <= s.len(),
    ensures
        last_index_before(s, c, n) == -1 || (0 <= last_index_before(s, c, n) < n && s[last_index_before(s, c, n)] == c),
        forall|j: int| 0 <= j < n && j > last_index_before(s, c, n) ==> s[j] != c,
    decreases n,
{
    if n > 0 && s[n - 1] != c {
        lemma_last_index_before(s, c, n - 1);
    }
}

pub fn index_of_vec(v: &Vec<char>, c: char) -> (r: Option<usize>)
    ensures
        r == opt_index(index_of(v@, c)),
{
    let mut i: usize = 0;
    while i < v.len()
        invariant
            i <= v.len(),
                index_of(v@, c) == index_of_from(v@, c, i as int),
        decreases v.len() - i,
    {
        if v[i] == c {
            return Some(i);
        }
        i += 1;
    }
    None
}

pub fn last_index_of_vec(v: &Vec<char>, c: char) -> (r: Option<usize>)
    ensures
        r == opt_index(last_index_of(v@, c)),
{
    let mut n: usize = v.len();
    while n > 0
        invariant
            n <= v.len(),
                last_index_of(v@, c) == last_index_before(v@, c, n as int),
        decreases n,
    {
        if v[n - 1] == c {
            return Some(n - 1);
        }
        n -= 1;
    }
    None
}

/// The characters of `v` in `[a, b)`.
pub fn slice_vec(v: &Vec<char>, a: usize, b: usize) -> (r: Vec<char>)
    requires
        a <= b <= v.len(),
    ensures
        r@ == v@.subrange(a as int, b as int),
{
    let mut out: Vec<char> = Vec::new();
    let mut i = a;
    while i < b
        invariant
            a <= i <= b,
            b <= v.len(),
            out@ =~= v@.subrange(a as int, i as int),
        decreases b - i,
    {
        out.push(v[i]);
        i += 1;
    }
    out
}

pub fn concat_vec(a: &Vec<char>, b: &Vec<char>) -> (r: Vec<char>)
    ensures
        r@ == a@ + b@,
{
    let mut out = a.clone();
    let mut i: usize = 0;
    while i < b.len()
        invariant
            i <= b.len(),
            out@ =~= a@ + b@.take(i as int),
        decreases b.len() - i,
    {
        out.push(b[i]);
        i += 1;
    }
    assert(b@.take(b.len() as int) =~= b@);
    out
}

/// Appends the characters of `b` to `out`.
pub fn append_vec(out: &mut Vec<char>, b: &Vec<char>)
    ensures
        final(out)@ == old(out)@ + b@,
{
    let mut i: usize = 0;
    while i < b.len()
        invariant
            i <= b.len(),
            out@ =~= old(out)@ + b@.take(i as int),
        decreases b.len() - i,
    {
        out.push(b[i]);
        i += 1;
    }
    assert(b@.take(b.len() as int) =~= b@);
}

/// Appends the characters of a string slice to `out`.
pub fn append_str(out: &mut Vec<char>, s: &str)
    ensures
        final(out)@ == old(out)@ + s@,
{
    let v = chars_of(s);
    append_vec(out, &v);
}

// ---------------------------------------------------------------------------
// Trimming
// ---------------------------------------------------------------------------

pub open spec fn trim_start(s: Seq<char>) -> Seq<char>
    decreases s.len(),
{
    if s.len() > 0 && is_ws(s[0]) {
        trim_start(s.drop_first())
    } else {
        s
    }
}

pub open spec fn trim_end(s: Seq<char>) -> Seq<char>
    decreases s.len(),
{
    if s.len() > 0 && is_ws(s.last()) {
        trim_end(s.drop_last())
    } else {
        s
    }
}

/// `str::trim`.
pub open spec fn trim(s: Seq<char>) -> Seq<char> {
    trim_end(trim_start(s))
}

pub proof fn lemma_trim_start_skip(s: Seq<char>, k: int)
    requires
        0 <= k <= s.len(),
        forall|j: int| 0 <= j < k ==> is_ws(#[trigger] s[j]),
    ensures
        trim_start(s) == trim_start(s.skip(k)),
    decreases k,
{
    if k > 0 {
        lemma_trim_start_skip(s.drop_first(), k - 1);
        assert(s.drop_first().skip(k - 1) =~= s.skip(k));
    } else {
        assert(s.skip(0) =~= s);
    }
}

pub proof fn lemma_trim_end_take(s: Seq<char>, k: int)
    requires
        0 <= k <= s.len(),
        forall|j: int| k <= j < s.len() ==> is_ws(#[trigger] s[j]),
    ensures
        trim_end(s) == trim_end(s.take(k)),
    decreases s.len() - k,
{
    if k < s.len() {
        lemma_trim_end_take(s.drop_last(), k);
        assert(s.drop_last().take(k) =~= s.take(k));
    } else {
        assert(s.take(k) =~= s);
    }
}

pub proof fn lemma_trim_start_len(s: Seq<char>)
    ensures
        trim_start(s).len() <= s.len(),
        trim_start(s).len() == 0 || !is_ws(trim_start(s)[0]),
    decreases s.len(),
{
    if s.len() > 0 && is_ws(s[0]) {
        lemma_trim_start_len(s.drop_first());
    }
}

pub proof fn lemma_trim_end_len(s: Seq<char>)
    ensures
        trim_end(s).len() <= s.len(),
        trim_end(s).len() == 0 || !is_ws(trim_end(s).last()),
    decreases s.len(),
{
    if s.len() > 0 && is_ws(s.last()) {
        lemma_trim_end_len(s.drop_last());
    }
}

/// Index of the first non-whitespace character of `v` (or `v.len()`).
pub fn trim_start_index(v: &Vec<char>) -> (a: usize)
    ensures
        a <= v.len(),
        trim_start(v@) == v@.skip(a as int),
{
    let mut a: usize = 0;
    while a < v.len() && is_whitespace(v[a])
        invariant
            a <= v.len(),
            forall|j: int| 0 <= j < a ==> is_ws(#[trigger] v@[j]),
        decreases v.len() - a,
    {
        a += 1;
    }
    proof {
        lemma_trim_start_skip(v@, a as int);
    }
    a
}

/// Index just past the last non-whitespace character of `v[..n]`.
pub fn trim_end_index(v: &Vec<char>, n: usize) -> (b: usize)
    requires
        n <= v.len(),
    ensures
        b <= n,
        trim_end(v@.take(n as int)) == v@.take(b as int),
{
    let mut b: usize = n;
    while b > 0 && is_whitespace(v[b - 1])
        invariant
            b <= n <= v.len(),
            forall|j: int| b <= j < n ==> is_ws(#[trigger] v@[j]),
        decreases b,
    {
        b -= 1;
    }
    proof {
        let t = v@.take(n as int);
        assert forall|j: int| b <= j < t.len() implies is_ws(#[trigger] t[j]) by {
            assert(t[j] == v@[j]);
        }
        lemma_trim_end_take(t, b as int);
        assert(t.take(b as int) =~= v@.take(b as int));
        if b < n {
            assert(!is_ws(v@[b - 1]) || b == 0);
        }
        assert(b == 0 || !is_ws(v@.take(b as int).last()));
    }
    b
}

pub fn trim_start_vec(v: &Vec<char>) -> (r: Vec<char>)
    ensures
        r@ == trim_start(v@),
{
    let a = trim_start_index(v);
    slice_vec(v, a, v.len())
}

pub fn trim_end_vec(v: &Vec<char>) -> (r: Vec<char>)
    ensures
        r@ == trim_end(v@),
{
    let b = trim_end_index(v, v.len());
    assert(v@.take(v.len() as int) =~= v@);
    slice_vec(v, 0, b)
}

pub fn trim_vec(v: &Vec<char>) -> (r: Vec<char>)
    ensures
        r@ == trim(v@),
{
    let s = trim_start_vec(v);
    trim_end_vec(&s)
}

/// The trimmed characters of a string slice.
pub fn trimmed(s: &str) -> (r: Vec<char>)
    ensures
        r@ == trim(s@),
{
    let v = chars_of(s);
    trim_vec(&v)
}

/// Removes every leading and trailing occurrence of `c` (`str::trim_matches`).
pub open spec fn strip_char_start(s: Seq<char>, c: char) -> Seq<char>
    decreases s.len(),
{
    if s.len() > 0 && s[0] == c {
        strip_char_start(s.drop_first(), c)
    } else {
        s
    }
}

pub open spec fn strip_char_end(s: Seq<char>, c: char) -> Seq<char>
    decreases s.len(),
{
    if s.len() > 0 && s.last() == c {
        strip_char_end(s.drop_last(), c)
    } else {
        s
    }
}

pub open spec fn trim_matches(s: Seq<char>, c: char) -> Seq<char> {
    strip_char_end(strip_char_start(s, c), c)
}

pub proof fn lemma_strip_start_skip(s: Seq<char>, c: char, k: int)
    requires
        0 <= k <= s.len(),
        forall|j: int| 0 <= j < k ==> #[trigger] s[j] == c,
    ensures
        strip_char_start(s, c) == strip_char_start(s.skip(k), c),
    decreases k,
{
    if k > 0 {
        lemma_strip_start_skip(s.drop_first(), c, k - 1);
        assert(s.drop_first().skip(k - 1) =~= s.skip(k));
    } else {
        assert(s.skip(0) =~= s);
    }
}

pub proof fn lemma_strip_end_take(s: Seq<char>, c: char, k: int)
    requires
        0 <= k <= s.len(),
        forall|j: int| k <= j < s.len() ==> #[trigger] s[j] == c,
    ensures
        strip_char_end(s, c) == strip_char_end(s.take(k), c),
    decreases s.len() - k,
{
    if k < s.len() {
        lemma_strip_end_take(s.drop_last(), c, k);
        assert(s.drop_last().take(k) =~= s.take(k));
    } else {
        assert(s.take(k) =~= s);
    }
}

pub fn strip_char_start_vec(v: &Vec<char>, c: char) -> (r: Vec<char>)
    ensures
        r@ == strip_char_start(v@, c),
{
    let mut a: usize = 0;
    while a < v.len() && v[a] == c
        invariant
            a <= v.len(),
            forall|j: int| 0 <= j < a ==> #[trigger] v@[j] == c,
        decreases v.len() - a,
    {
        a += 1;
    }
    proof {
        lemma_strip_start_skip(v@, c, a as int);
    }
    slice_vec(v, a, v.len())
}

pub fn strip_char_end_vec(v: &Vec<char>, c: char) -> (r: Vec<char>)
    ensures
        r@ == strip_char_end(v@, c),
{
    let mut b: usize = v.len();
    while b > 0 && v[b - 1] == c
        invariant
            b <= v.len(),
            forall|j: int| b <= j < v.len() ==> #[trigger] v@[j] == c,
        decreases b,
    {
        b -= 1;
    }
    proof {
        lemma_strip_end_take(v@, c, b as int);
    }
    slice_vec(v, 0, b)
}

pub fn trim_matches_vec(v: &Vec<char>, c: char) -> (r: Vec<char>)
    ensures
        r@ == trim_matches(v@, c),
{
    let s = strip_char_start_vec(v, c);
    strip_char_end_vec(&s, c)
}

/// Removes every leading repetition of the prefix `p` (`str::trim_start_matches`).
pub open spec fn strip_prefix_all(s: Seq<char>, p: Seq<char>) -> Seq<char>
    decreases s.len(),
{
    if p.len() > 0 && starts_with(s, p) {
        strip_prefix_all(s.skip(p.len() as int), p)
    } else {
        s
    }
}

pub fn strip_prefix_all_vec(v: &Vec<char>, p: &Vec<char>) -> (r: Vec<char>)
    ensures
        r@ == strip_prefix_all(v@, p@),
    decreases v.len(),
{
    if p.len() > 0 && starts_with_vec(v, p) {
        let rest = slice_vec(v, p.len(), v.len());
        strip_prefix_all_vec(&rest, p)
    } else {
        v.clone()
    }
}

// ---------------------------------------------------------------------------
// Splitting and joining
// ---------------------------------------------------------------------------

/// A set of separator characters: the listed ones, plus every character that
/// is not ASCII alphanumeric when `non_alnum` holds, plus Unicode whitespace
/// when `ws` holds.
pub struct CharClass {
    pub chars: Vec<char>,
    pub non_alnum: bool,
    pub ws: bool,
}

impl View for CharClass {
    type V = (Seq<char>, bool, bool);

    open spec fn view(&self) -> (Seq<char>, bool, bool) {
        (self.chars@, self.non_alnum, self.ws)
    }
}

pub open spec fn in_class(cls: (Seq<char>, bool, bool), c: char) -> bool {
    cls.0.contains(c) || (cls.1 && !is_alnum(c)) || (cls.2 && is_ws(c))
}

impl CharClass {
    pub fn of(chars: Vec<char>) -> (r: CharClass)
        ensures
            r@ == (chars@, false, false),
    {
        CharClass { chars, non_alnum: false, ws: false }
    }

    pub fn single(c: char) -> (r: CharClass)
        ensures
            r@ == (seq![c], false, false),
    {
        let mut v: Vec<char> = Vec::new();
        v.push(c);
        assert(v@ =~= seq![c]);
        CharClass { chars: v, non_alnum: false, ws: false }
    }

    pub fn whitespace() -> (r: CharClass)
        ensures
            r@ == (Seq::<char>::empty(), false, true),
    {
        let v: Vec<char> = Vec::new();
        assert(v@ =~= Seq::<char>::empty());
        CharClass { chars: v, non_alnum: false, ws: true }
    }

    pub fn non_alphanumeric() -> (r: CharClass)
        ensures
            r@ == (Seq::<char>::empty(), true, false),
    {
        let v: Vec<char> = Vec::new();
        assert(v@ =~= Seq::<char>::empty());
        CharClass { chars: v, non_alnum: true, ws: false }
    }

    pub fn has(&self, c: char) -> (r: bool)
        ensures
            r == in_class(self@, c),
    {
        if self.non_alnum && !is_ascii_alphanumeric(c) {
            return true;
        }
        if self.ws && is_whitespace(c) {
            return true;
        }
        let mut i: usize = 0;
        while i < self.chars.len()
            invariant
                i <= self.chars.len(),
                forall|j: int| 0 <= j < i ==> self.chars@[j] != c,
            decreases self.chars.len() - i,
        {
            if self.chars[i] == c {
                assert(self.chars@[i as int] == c);
                return true;
            }
            i += 1;
        }
        assert(!self.chars@.contains(c));
        false
    }
}

/// `str::split` on a set of separator characters: the pieces between
/// separators, empty pieces included.
pub open spec fn split_by(s: Seq<char>, cls: (Seq<char>, bool, bool)) -> Seq<Seq<char>>
    decreases s.len(),
{
    if s.len() == 0 {
        seq![Seq::<char>::empty()]
    } else {
        let init = split_by(s.drop_last(), cls);
        if in_class(cls, s.last()) {
            init.push(Seq::<char>::empty())
        } else {
            init.update(init.len() - 1, init.last().push(s.last()))
        }
    }
}

pub proof fn lemma_split_by_len(s: Seq<char>, cls: (Seq<char>, bool, bool))
    ensures
        split_by(s, cls).len() >= 1,
    decreases s.len(),
{
    if s.len() > 0 {
        lemma_split_by_len(s.drop_last(), cls);
    }
}

pub fn split_vec(v: &Vec<char>, cls: &CharClass) -> (r: Vec<Vec<char>>)
    ensures
        views_v(r@) == split_by(v@, cls@),
{
    let mut parts: Vec<Vec<char>> = Vec::new();
    let mut cur: Vec<char> = Vec::new();
    let mut i: usize = 0;
    assert(v@.take(0) =~= Seq::<char>::empty());
    while i < v.len()
        invariant
            i <= v.len(),
            views_v(parts@).push(cur@) =~= split_by(v@.take(i as int), cls@),
        decreases v.len() - i,
    {
        let c = v[i];
        proof {
            assert(v@.take(i + 1).drop_last() =~= v@.take(i as int));
            lemma_split_by_len(v@.take(i as int), cls@);
        }
        if cls.has(c) {
            let done = cur;
            parts.push(done);
            cur = Vec::new();
            assert(views_v(parts@).push(cur@) =~= split_by(v@.take(i as int), cls@).push(Seq::<char>::empty()));
        } else {
            cur.push(c);
        }
        i += 1;
    }
    assert(v@.take(v.len() as int) =~= v@);
    parts.push(cur);
    parts
}

/// The views of a sequence of character vectors.
pub open spec fn views_v(v: Seq<Vec<char>>) -> Seq<Seq<char>> {
    Seq::new(v.len(), |i: int| v[i]@)
}

/// Keeps the non-empty pieces, in order.
pub open spec fn drop_empty(parts: Seq<Seq<char>>) -> Seq<Seq<char>>
    decreases parts.len(),
{
    if parts.len() == 0 {
        parts
    } else if parts.last().len() == 0 {
        drop_empty(parts.drop_last())
    } else {
        drop_empty(parts.drop_last()).push(parts.last())
    }
}

pub fn copy_vec(v: &Vec<char>) -> (r: Vec<char>)
    ensures
        r@ == v@,
{
    let r = slice_vec(v, 0, v.len());
    assert(v@.subrange(0, v.len() as int) =~= v@);
    r
}

pub fn drop_empty_vec(parts: &Vec<Vec<char>>) -> (r: Vec<Vec<char>>)
    ensures
        views_v(r@) == drop_empty(views_v(parts@)),
{
    let mut out: Vec<Vec<char>> = Vec::new();
    let mut i: usize = 0;
    assert(views_v(parts@).take(0) =~= Seq::<Seq<char>>::empty());
    assert(views_v(out@) =~= Seq::<Seq<char>>::empty());
    while i < parts.len()
        invariant
            i <= parts.len(),
            views_v(out@) =~= drop_empty(views_v(parts@).take(i as int)),
        decreases parts.len() - i,
    {
        proof {
            assert(views_v(parts@).take(i + 1).drop_last() =~= views_v(parts@).take(i as int));
            assert(views_v(parts@).take(i + 1).last() == parts@[i as int]@);
        }
        if parts[i].len() > 0 {
            let c = copy_vec(&parts[i]);
            out.push(c);
        }
        i += 1;
    }
    assert(views_v(parts@).take(parts.len() as int) =~= views_v(parts@));
    out
}

/// Joins pieces with a separator (`[T]::join`).
pub open spec fn join(parts: Seq<Seq<char>>, sep: Seq<char>) -> Seq<char>
    decreases parts.len(),
{
    if parts.len() == 0 {
        Seq::<char>::empty()
    } else if parts.len() == 1 {
        parts[0]
    } else {
        join(parts.drop_last(), sep) + sep + parts.last()
    }
}

pub fn join_vec(parts: &Vec<Vec<char>>, sep: &Vec<char>) -> (r: Vec<char>)
    ensures
        r@ == join(views_v(parts@), sep@),
{
    let mut out: Vec<char> = Vec::new();
    let mut i: usize = 0;
    while i < parts.len()
        invariant
            i <= parts.len(),
            out@ == join(views_v(parts@).take(i as int), sep@),
        decreases parts.len() - i,
    {
        proof {
            assert(views_v(parts@).take(i + 1).drop_last() =~= views_v(parts@).take(i as int));
        }
        if i > 0 {
            append_vec(&mut out, sep);
        }
        append_vec(&mut out, &parts[i]);
        proof {
            if i == 0 {
                assert(out@ =~= views_v(parts@).take(1)[0]);
            }
        }
        i += 1;
    }
    assert(views_v(parts@).take(parts.len() as int) =~= views_v(parts@));
    out
}


/// `str::split_whitespace`.
pub open spec fn split_ws(s: Seq<char>) -> Seq<Seq<char>> {
    drop_empty(split_by(s, (Seq::<char>::empty(), false, true)))
}

pub fn split_ws_vec(v: &Vec<char>) -> (r: Vec<Vec<char>>)
    ensures
        views_v(r@) == split_ws(v@),
{
    let cls = CharClass::whitespace();
    let parts = split_vec(v, &cls);
    drop_empty_vec(&parts)
}

/// Drops one trailing carriage return.
pub open spec fn strip_cr(s: Seq<char>) -> Seq<char> {
    if s.len() > 0 && s.last() == '\r' {
        s.drop_last()
    } else {
        s
    }
}

/// `str::lines`: pieces separated by `\n`; a piece followed by `\n` loses
/// one trailing `\r`; an empty final piece is not a line.
pub open spec fn lines(s: Seq<char>) -> Seq<Seq<char>> {
    let parts = split_by(s, (seq!['\n'], false, false));
    let n = if parts.last().len() == 0 { parts.len() - 1 } else { parts.len() as int };
    Seq::new(
        n as nat,
        |k: int|
            if k < parts.len() - 1 {
                strip_cr(parts[k])
            } else {
                parts[k]
            },
    )
}

pub fn strip_cr_vec(v: &Vec<char>) -> (r: Vec<char>)
    ensures
        r@ == strip_cr(v@),
{
    if v.len() > 0 && v[v.len() - 1] == '\r' {
        slice_vec(v, 0, v.len() - 1)
    } else {
        copy_vec(v)
    }
}

pub fn lines_vec(v: &Vec<char>) -> (r: Vec<Vec<char>>)
    ensures
        views_v(r@) == lines(v@),
{
    let cls = CharClass::single('\n');
    let parts = split_vec(v, &cls);
    proof {
        lemma_split_by_len(v@, cls@);
    }
    let last = parts.len() - 1;
    let n = if parts[last].len() == 0 { last } else { parts.len() };
    let mut out: Vec<Vec<char>> = Vec::new();
    let mut k: usize = 0;
    assert(lines(v@).len() == n);
    while k < n
        invariant
            k <= n <= parts.len(),
            last == parts.len() - 1,
            lines(v@).len() == n,
            cls@ == (seq!['\n'], false, false),
            views_v(parts@) == split_by(v@, cls@),
            n == (if split_by(v@, cls@).last().len() == 0 { parts.len() - 1 } else { parts.len() as int }),
            out@.len() == k,
            views_v(out@) =~= lines(v@).take(k as int),
        decreases n - k,
    {
        let piece = if k < last { strip_cr_vec(&parts[k]) } else { copy_vec(&parts[k]) };
        let ghost prev = out@;
        out.push(piece);
        proof {
            assert(views_v(parts@)[k as int] == parts@[k as int]@);
            assert forall|j: int| 0 <= j < k + 1 implies #[trigger] views_v(out@)[j] == lines(v@).take(k + 1)[j] by {
                if j < k {
                    assert(views_v(prev)[j] == lines(v@).take(k as int)[j]);
                    assert(out@[j] == prev[j]);
                }
            }
        }
        k += 1;
    }
    assert(lines(v@).take(n as int) =~= lines(v@));
    out
}

/// `str::split_once` on a character.
pub open spec fn split_once(s: Seq<char>, c: char) -> Option<(Seq<char>, Seq<char>)> {
    let i = index_of(s, c);
    if i < 0 {
        None
    } else {
        Some((s.take(i), s.skip(i + 1)))
    }
}

/// `str::rsplit_once` on a character.
pub open spec fn rsplit_once(s: Seq<char>, c: char) -> Option<(Seq<char>, Seq<char>)> {
    let i = last_index_of(s, c);
    if i < 0 {
        None
    } else {
        Some((s.take(i), s.skip(i + 1)))
    }
}

pub fn split_once_vec(v: &Vec<char>, c: char) -> (r: Option<(Vec<char>, Vec<char>)>)
    ensures
        match split_once(v@, c) {
            None => r is None,
            Some((a, b)) => r matches Some((x, y)) && x@ == a && y@ == b,
        },
{
    let i = index_of_vec(v, c);
    proof {
        lemma_index_of_from(v@, c, 0);
    }
    if i.is_none() {
        None
    } else {
        let iu = i.unwrap();
        let a = slice_vec(v, 0, iu);
        let b = slice_vec(v, iu + 1, v.len());
        Some((a, b))
    }
}

pub fn rsplit_once_vec(v: &Vec<char>, c: char) -> (r: Option<(Vec<char>, Vec<char>)>)
    ensures
        match rsplit_once(v@, c) {
            None => r is None,
            Some((a, b)) => r matches Some((x, y)) && x@ == a && y@ == b,
        },
{
    let i = last_index_of_vec(v, c);
    proof {
        lemma_last_index_before(v@, c, v@.len() as int);
    }
    if i.is_none() {
        None
    } else {
        let iu = i.unwrap();
        let a = slice_vec(v, 0, iu);
        let b = slice_vec(v, iu + 1, v.len());
        Some((a, b))
    }
}

// ---------------------------------------------------------------------------
// Unsigned integers
// ---------------------------------------------------------------------------

pub open spec fn digit_value(c: char) -> nat {
    ((c as u32) - ('0' as u32)) as nat
}

/// The value of a string of decimal digits.
pub open spec fn digits_value(s: Seq<char>) -> nat
    decreases s.len(),
{
    if s.len() == 0 {
        0
    } else {
        digits_value(s.drop_last()) * 10 + digit_value(s.last())
    }
}

pub open spec fn all_digits(s: Seq<char>) -> bool {
    forall|i: int| 0 <= i < s.len() ==> is_digit(#[trigger] s[i])
}

/// What `str::parse` gives for an unsigned type whose largest value is
/// `max`: an optional `+`, then one or more ASCII digits, with no overflow.
pub open spec fn parse_unsigned(s: Seq<char>, max: nat) -> Option<nat> {
    let d = if s.len() > 0 && s[0] == '+' { s.drop_first() } else { s };
    if d.len() > 0 && all_digits(d) && digits_value(d) <= max {
        Some(digits_value(d))
    } else {
        None
    }
}

pub proof fn lemma_digits_value_mono(s: Seq<char>, i: int, j: int)
    requires
        0 <= i <= j <= s.len(),
    ensures
        digits_value(s.take(i)) <= digits_value(s.take(j)),
    decreases j - i,
{
    if i < j {
        lemma_digits_value_mono(s, i, j - 1);
        assert(s.take(j).drop_last() =~= s.take(j - 1));
        let v = digits_value(s.take(j - 1));
        assert(v <= v * 10) by (nonlinear_arith);
    }
}

pub fn parse_unsigned_vec(v: &Vec<char>, max: u64) -> (r: Option<u64>)
    ensures
        match parse_unsigned(v@, max as nat) {
            None => r is None,
            Some(n) => r == Some(n as u64),
        },
{
    let d = if v.len() > 0 && v[0] == '+' { slice_vec(v, 1, v.len()) } else { copy_vec(v) };
    assert(d@ == (if v@.len() > 0 && v@[0] == '+' { v@.drop_first() } else { v@ }));
    if d.len() == 0 {
        return None;
    }
    let mut acc: u64 = 0;
    let mut i: usize = 0;
    assert(d@.take(0) =~= Seq::<char>::empty());
    while i < d.len()
        invariant
            i <= d.len(),
            acc as nat == digits_value(d@.take(i as int)),
            acc <= max,
            d@.len() > 0,
            d@ == (if v@.len() > 0 && v@[0] == '+' { v@.drop_first() } else { v@ }),
            forall|j: int| 0 <= j < i ==> is_digit(#[trigger] d@[j]),
        decreases d.len() - i,
    {
        let c = d[i];
        if !is_ascii_digit(c) {
            assert(!is_digit(d@[i as int]));
            assert(!all_digits(d@));
            assert(parse_unsigned(v@, max as nat) is None);
            return None;
        }
        let dv: u64 = (c as u32 - '0' as u32) as u64;
        assert(d@.take(i + 1).drop_last() =~= d@.take(i as int));
        assert(d@.take(i + 1).last() == c);
        if dv > max || acc > (max - dv) / 10 {
            proof {
                if dv <= max {
                    assert(acc * 10 + dv > max) by (nonlinear_arith)
                        requires
                            acc > (max - dv) / 10,
                            dv <= max,
                    ;
                } else {
                    assert(acc * 10 + dv > max) by (nonlinear_arith)
                        requires
                            dv > max,
                    ;
                }
                lemma_digits_value_mono(d@, i + 1, d@.len() as int);
                assert(d@.take(d@.len() as int) =~= d@);
            }
            return None;
        }
        proof {
            assert(acc * 10 + dv <= max) by (nonlinear_arith)
                requires
                    acc <= (max - dv) / 10,
                    dv <= max,
            ;
        }
        acc = acc * 10 + dv;
        i += 1;
    }
    assert(d@.take(d@.len() as int) =~= d@);
    Some(acc)
}


// ---------------------------------------------------------------------------
// Maps over pieces, words
// ---------------------------------------------------------------------------

pub open spec fn map_trim(parts: Seq<Seq<char>>) -> Seq<Seq<char>> {
    Seq::new(parts.len(), |i: int| trim(parts[i]))
}

pub open spec fn map_capitalize(parts: Seq<Seq<char>>) -> Seq<Seq<char>> {
    Seq::new(parts.len(), |i: int| capitalize(parts[i]))
}

pub fn map_trim_vec(parts: &Vec<Vec<char>>) -> (r: Vec<Vec<char>>)
    ensures
        views_v(r@) == map_trim(views_v(parts@)),
{
    let mut out: Vec<Vec<char>> = Vec::new();
    let mut i: usize = 0;
    while i < parts.len()
        invariant
            i <= parts.len(),
            out@.len() == i,
            forall|k: int| 0 <= k < i ==> #[trigger] out@[k]@ == trim(parts@[k]@),
        decreases parts.len() - i,
    {
        let t = trim_vec(&parts[i]);
        out.push(t);
        i += 1;
    }
    assert(views_v(out@) =~= map_trim(views_v(parts@)));
    out
}

pub fn map_capitalize_vec(parts: &Vec<Vec<char>>) -> (r: Vec<Vec<char>>)
    ensures
        views_v(r@) == map_capitalize(views_v(parts@)),
{
    let mut out: Vec<Vec<char>> = Vec::new();
    let mut i: usize = 0;
    while i < parts.len()
        invariant
            i <= parts.len(),
            out@.len() == i,
            forall|k: int| 0 <= k < i ==> #[trigger] out@[k]@ == capitalize(parts@[k]@),
        decreases parts.len() - i,
    {
        let t = capitalize_vec(&parts[i]);
        out.push(t);
        i += 1;
    }
    assert(views_v(out@) =~= map_capitalize(views_v(parts@)));
    out
}

/// Words separated by characters of `cls`, each capitalized, joined by one
/// space.
pub open spec fn title_words(s: Seq<char>, cls: (Seq<char>, bool, bool)) -> Seq<char> {
    join(map_capitalize(drop_empty(split_by(s, cls))), " "@)
}

pub fn title_words_vec(v: &Vec<char>, cls: &CharClass) -> (r: Vec<char>)
    ensures
        r@ == title_words(v@, cls@),
{
    let parts = split_vec(v, cls);
    let words = drop_empty_vec(&parts);
    let caps = map_capitalize_vec(&words);
    let sep = chars_of(" ");
    join_vec(&caps, &sep)
}

/// The view of an optional string.
pub open spec fn opt_view(o: Option<String>) -> Option<Seq<char>> {
    match o {
        Some(s) => Some(s@),
        None => None,
    }
}

/// The view of an optional string slice.
pub open spec fn opt_str_view(o: Option<&str>) -> Option<Seq<char>> {
    match o {
        Some(s) => Some(s@),
        None => None,
    }
}

/// The trimmed text when it is not empty.
pub open spec fn trimmed_nonempty(o: Option<Seq<char>>) -> Option<Seq<char>> {
    match o {
        Some(s) => if trim(s).len() > 0 { Some(trim(s)) } else { None },
        None => None,
    }
}

pub fn trimmed_nonempty_str(o: Option<&str>) -> (r: Option<Vec<char>>)
    ensures
        match trimmed_nonempty(opt_str_view(o)) {
            Some(t) => r matches Some(x) && x@ == t,
            None => r is None,
        },
{
    match o {
        Some(s) => {
            let t = trimmed(s);
            if t.len() > 0 {
                Some(t)
            } else {
                None
            }
        },
        None => None,
    }
}

pub fn trimmed_nonempty_string(o: &Option<String>) -> (r: Option<Vec<char>>)
    ensures
        match trimmed_nonempty(opt_view(*o)) {
            Some(t) => r matches Some(x) && x@ == t,
            None => r is None,
        },
{
    match o {
        Some(s) => {
            let t = trimmed(s.as_str());
            if t.len() > 0 {
                Some(t)
            } else {
                None
            }
        },
        None => None,
    }
}

/// `str::eq_ignore_ascii_case`.
pub open spec fn eq_ignore_case(a: Seq<char>, b: Seq<char>) -> bool {
    lower(a) == lower(b)
}

pub fn eq_ignore_case_vec(a: &Vec<char>, b: &Vec<char>) -> (r: bool)
    ensures
        r == eq_ignore_case(a@, b@),
{
    let la = lower_vec(a);
    let lb = lower_vec(b);
    seq_eq(&la, &lb)
}


// ---------------------------------------------------------------------------
// Decimal rendering
// ---------------------------------------------------------------------------

pub open spec fn digit_char(d: nat) -> char {
    ((d + 48) as u32) as char
}

/// The decimal digits of `n`, as `u64::to_string` writes them.
pub open spec fn decimal(n: nat) -> Seq<char>
    decreases n,
{
    if n < 10 {
        seq![digit_char(n)]
    } else {
        decimal(n / 10).push(digit_char(n % 10))
    }
}

pub fn decimal_vec(n: u64) -> (r: Vec<char>)
    ensures
        r@ == decimal(n as nat),
    decreases n,
{
    if n < 10 {
        let c = ((n as u8) + 48) as char;
        let v = vec![c];
        assert(v@ =~= seq![digit_char(n as nat)]);
        v
    } else {
        let mut v = decimal_vec(n / 10);
        let c = (((n % 10) as u8) + 48) as char;
        v.push(c);
        v
    }
}

// ---------------------------------------------------------------------------
// Float syntax
// ---------------------------------------------------------------------------

/// Digits with at most one `.`, and at least one digit.
pub open spec fn float_mantissa(m: Seq<char>) -> bool {
    let d = index_of(m, '.');
    if d < 0 {
        m.len() > 0 && all_digits(m)
    } else {
        m.len() > 1 && all_digits(m.take(d)) && all_digits(m.skip(d + 1))
    }
}

/// An optional sign, then at least one digit.
pub open spec fn float_exponent(x: Seq<char>) -> bool {
    let y = if x.len() > 0 && (x[0] == '+' || x[0] == '-') {
        x.skip(1)
    } else {
        x
    };
    y.len() > 0 && all_digits(y)
}

/// The text `f32::from_str` accepts, as std documents its grammar: an
/// optional sign, then `inf`, `infinity` or `nan` in any case, or a decimal
/// number (digits with an optional `.`, at least one digit) with an optional
/// exponent (`e` or `E`, an optional sign, digits).  No surrounding spaces.
pub open spec fn float_text(s: Seq<char>) -> bool {
    let body = if s.len() > 0 && (s[0] == '+' || s[0] == '-') {
        s.skip(1)
    } else {
        s
    };
    let t = lower(body);
    let k = index_of(t, 'e');
    if t == "inf"@ || t == "infinity"@ || t == "nan"@ {
        true
    } else if k < 0 {
        float_mantissa(t)
    } else {
        float_mantissa(t.take(k)) && float_exponent(t.skip(k + 1))
    }
}

fn all_digits_vec(v: &Vec<char>) -> (r: bool)
    ensures
        r == all_digits(v@),
{
    let mut i: usize = 0;
    while i < v.len()
        invariant
            i <= v.len(),
            forall|k: int| 0 <= k < i ==> is_digit(#[trigger] v@[k]),
        decreases v.len() - i,
    {
        if !is_ascii_digit(v[i]) {
            return false;
        }
        i += 1;
    }
    true
}

fn float_mantissa_vec(m: &Vec<char>) -> (r: bool)
    ensures
        r == float_mantissa(m@),
{
    proof {
        lemma_index_of_from(m@, '.', 0);
    }
    match index_of_vec(m, '.') {
        None => m.len() > 0 && all_digits_vec(m),
        Some(d) => {
            let a = slice_vec(m, 0, d);
            let b = slice_vec(m, d + 1, m.len());
            assert(a@ =~= m@.take(d as int));
            assert(b@ =~= m@.skip(d + 1));
            m.len() > 1 && all_digits_vec(&a) && all_digits_vec(&b)
        },
    }
}

fn float_exponent_vec(x: &Vec<char>) -> (r: bool)
    ensures
        r == float_exponent(x@),
{
    let y = if x.len() > 0 && (x[0] == '+' || x[0] == '-') {
        let y = slice_vec(x, 1, x.len());
        assert(y@ =~= x@.skip(1));
        y
    } else {
        copy_vec(x)
    };
    y.len() > 0 && all_digits_vec(&y)
}

/// Whether `f32::from_str` accepts the text.
pub fn is_float_text(s: &Vec<char>) -> (r: bool)
    ensures
        r == float_text(s@),
{
    let body = if s.len() > 0 && (s[0] == '+' || s[0] == '-') {
        let b = slice_vec(s, 1, s.len());
        assert(b@ =~= s@.skip(1));
        b
    } else {
        copy_vec(s)
    };
    let t = lower_vec(&body);
    if str_eq("inf", &t) || str_eq("infinity", &t) || str_eq("nan", &t) {
        return true;
    }
    proof {
        lemma_index_of_from(t@, 'e', 0);
    }
    match index_of_vec(&t, 'e') {
        None => float_mantissa_vec(&t),
        Some(k) => {
            let m = slice_vec(&t, 0, k);
            let x = slice_vec(&t, k + 1, t.len());
            assert(m@ =~= t@.take(k as int));
            assert(x@ =~= t@.skip(k + 1));
            float_mantissa_vec(&m) && float_exponent_vec(&x)
        },
    }
}

} // verus!
