use vstd::prelude::*;
use vstd::string::StrSliceExecFns;
use crate::text::chars_to_string;
use crate::persistent::strings_view;

verus! {

// The persisted documents of this service are small JSON texts of a fixed
// shape: one object whose member values are strings or arrays of strings.
// This module defines that format once, as specification functions over
// character sequences, and provides a verified parser and renderer for it.

/// Mathematical value of one member value: a string or an array of strings.
pub enum JsonValueV {
    Str(Seq<char>),
    Arr(Seq<Seq<char>>),
}

/// A member value of a parsed document.
pub enum JsonValue {
    Str(String),
    Arr(Vec<String>),
}

impl View for JsonValue {
    type V = JsonValueV;

    open spec fn view(&self) -> JsonValueV {
        match self {
            JsonValue::Str(s) => JsonValueV::Str(s@),
            JsonValue::Arr(v) => JsonValueV::Arr(strings_view(v@)),
        }
    }
}

/// The members of a parsed document, as mathematical values, in text order.
pub open spec fn members_view(v: Seq<(String, JsonValue)>) -> Seq<(Seq<char>, JsonValueV)> {
    Seq::new(v.len(), |i: int| (v[i].0@, v[i].1@))
}

/// JSON insignificant whitespace.
pub open spec fn is_json_ws(c: char) -> bool {
    c == ' ' || c == '\t' || c == '\n' || c == '\r'
}

/// The position of the first non-whitespace character at or after `i`.
pub open spec fn skip_ws(s: Seq<char>, i: int) -> int
    decreases s.len() - i,
{
    if 0 <= i < s.len() && is_json_ws(s[i]) {
        skip_ws(s, i + 1)
    } else {
        i
    }
}

pub proof fn lemma_skip_ws_bounds(s: Seq<char>, i: int)
    requires
        0 <= i <= s.len(),
    ensures
        i <= skip_ws(s, i) <= s.len(),
    decreases s.len() - i,
{
    if i < s.len() && is_json_ws(s[i]) {
        lemma_skip_ws_bounds(s, i + 1);
    }
}

/// The character an escape letter stands for, if it is a recognised escape.
pub open spec fn unescaped_char(c: char) -> Option<char> {
    if c == '"' {
        Some('"')
    } else if c == '\\' {
        Some('\\')
    } else if c == '/' {
        Some('/')
    } else if c == 'n' {
        Some('\n')
    } else if c == 't' {
        Some('\t')
    } else if c == 'r' {
        Some('\r')
    } else if c == 'b' {
        Some('\u{0008}')
    } else if c == 'f' {
        Some('\u{000C}')
    } else {
        None
    }
}

/// Parse the rest of a string literal, starting just after the opening
/// quote; yields the decoded characters and the position after the closing
/// quote.
pub open spec fn parse_string_body(s: Seq<char>, i: int) -> Option<(Seq<char>, int)>
    decreases s.len() - i,
{
    if i < 0 || i >= s.len() {
        None
    } else if s[i] == '"' {
        Some((Seq::empty(), i + 1))
    } else if s[i] == '\\' {
        if i + 1 < s.len() {
            match unescaped_char(s[i + 1]) {
                Some(c) => match parse_string_body(s, i + 2) {
                    Some((tail, j)) => Some((seq![c] + tail, j)),
                    None => None,
                },
                None => None,
            }
        } else {
            None
        }
    } else if (s[i] as u32) < 32 {
        None
    } else {
        match parse_string_body(s, i + 1) {
            Some((tail, j)) => Some((seq![s[i]] + tail, j)),
            None => None,
        }
    }
}

pub proof fn lemma_string_body_advances(s: Seq<char>, i: int)
    requires
        0 <= i <= s.len(),
    ensures
        match parse_string_body(s, i) {
            Some((t, j)) => i < j <= s.len(),
            None => true,
        },
    decreases s.len() - i,
{
    if i < s.len() {
        if s[i] == '\\' {
            if i + 1 < s.len() {
                lemma_string_body_advances(s, i + 2);
            }
        } else if s[i] != '"' {
            lemma_string_body_advances(s, i + 1);
        }
    }
}

/// Parse a string literal whose opening quote stands at `i`.
pub open spec fn parse_string_at(s: Seq<char>, i: int) -> Option<(Seq<char>, int)> {
    if 0 <= i < s.len() && s[i] == '"' {
        parse_string_body(s, i + 1)
    } else {
        None
    }
}

pub proof fn lemma_string_at_advances(s: Seq<char>, i: int)
    requires
        0 <= i <= s.len(),
    ensures
        match parse_string_at(s, i) {
            Some((t, j)) => i + 1 < j <= s.len(),
            None => true,
        },
{
    if 0 <= i < s.len() && s[i] == '"' {
        lemma_string_body_advances(s, i + 1);
    }
}

/// Parse the items of a non-empty array of strings: `ws string` followed by
/// `ws ,` and more items, or `ws ]` closing the array.
pub open spec fn parse_array_items(s: Seq<char>, i: int) -> Option<(Seq<Seq<char>>, int)>
    decreases s.len() - i,
        when 0 <= i <= s.len()
        via parse_array_items_decreases
{
    let j1 = skip_ws(s, i);
    match parse_string_at(s, j1) {
        None => None,
        Some((item, j2)) => {
            let j3 = skip_ws(s, j2);
            if j3 < s.len() {
                if s[j3] == ',' {
                    match parse_array_items(s, j3 + 1) {
                        Some((rest, j4)) => Some((seq![item] + rest, j4)),
                        None => None,
                    }
                } else if s[j3] == ']' {
                    Some((seq![item], j3 + 1))
                } else {
                    None
                }
            } else {
                None
            }
        },
    }
}

#[via_fn]
proof fn parse_array_items_decreases(s: Seq<char>, i: int) {
    lemma_skip_ws_bounds(s, i);
    let j1 = skip_ws(s, i);
    lemma_string_at_advances(s, j1);
    match parse_string_at(s, j1) {
        Some((item, j2)) => {
            lemma_skip_ws_bounds(s, j2);
        },
        None => {},
    }
}

pub proof fn lemma_array_items_advances(s: Seq<char>, i: int)
    requires
        0 <= i <= s.len(),
    ensures
        match parse_array_items(s, i) {
            Some((a, j)) => i < j <= s.len(),
            None => true,
        },
    decreases s.len() - i,
{
    lemma_skip_ws_bounds(s, i);
    let j1 = skip_ws(s, i);
    lemma_string_at_advances(s, j1);
    match parse_string_at(s, j1) {
        Some((item, j2)) => {
            lemma_skip_ws_bounds(s, j2);
            let j3 = skip_ws(s, j2);
            if j3 < s.len() && s[j3] == ',' {
                lemma_array_items_advances(s, j3 + 1);
            }
        },
        None => {},
    }
}

/// Parse one member value: leading whitespace, then a string or an array of
/// strings.
pub open spec fn parse_value(s: Seq<char>, i: int) -> Option<(JsonValueV, int)> {
    let j = skip_ws(s, i);
    if 0 <= j < s.len() {
        if s[j] == '"' {
            match parse_string_at(s, j) {
                Some((t, k)) => Some((JsonValueV::Str(t), k)),
                None => None,
            }
        } else if s[j] == '[' {
            let j2 = skip_ws(s, j + 1);
            if j2 < s.len() && s[j2] == ']' {
                Some((JsonValueV::Arr(Seq::empty()), j2 + 1))
            } else {
                match parse_array_items(s, j + 1) {
                    Some((a, k)) => Some((JsonValueV::Arr(a), k)),
                    None => None,
                }
            }
        } else {
            None
        }
    } else {
        None
    }
}

pub proof fn lemma_value_advances(s: Seq<char>, i: int)
    requires
        0 <= i <= s.len(),
    ensures
        match parse_value(s, i) {
            Some((v, j)) => i < j <= s.len(),
            None => true,
        },
{
    lemma_skip_ws_bounds(s, i);
    let j = skip_ws(s, i);
    if 0 <= j < s.len() {
        lemma_string_at_advances(s, j);
        if s[j] == '[' {
            lemma_skip_ws_bounds(s, j + 1);
            lemma_array_items_advances(s, j + 1);
        }
    }
}

/// Parse the members of a non-empty object: `ws key ws : value` followed by
/// `ws ,` and more members, or `ws }` closing the object.
pub open spec fn parse_members(s: Seq<char>, i: int) -> Option<
    (Seq<(Seq<char>, JsonValueV)>, int),
>
    decreases s.len() - i,
        when 0 <= i <= s.len()
        via parse_members_decreases
{
    let j1 = skip_ws(s, i);
    match parse_string_at(s, j1) {
        None => None,
        Some((key, j2)) => {
            let j3 = skip_ws(s, j2);
            if j3 < s.len() && s[j3] == ':' {
                match parse_value(s, j3 + 1) {
                    None => None,
                    Some((v, j4)) => {
                        let j5 = skip_ws(s, j4);
                        if j5 < s.len() {
                            if s[j5] == ',' {
                                match parse_members(s, j5 + 1) {
                                    Some((rest, j6)) => Some((seq![(key, v)] + rest, j6)),
                                    None => None,
                                }
                            } else if s[j5] == '}' {
                                Some((seq![(key, v)], j5 + 1))
                            } else {
                                None
                            }
                        } else {
                            None
                        }
                    },
                }
            } else {
                None
            }
        },
    }
}

#[via_fn]
proof fn parse_members_decreases(s: Seq<char>, i: int) {
    lemma_skip_ws_bounds(s, i);
    let j1 = skip_ws(s, i);
    lemma_string_at_advances(s, j1);
    match parse_string_at(s, j1) {
        Some((key, j2)) => {
            lemma_skip_ws_bounds(s, j2);
            let j3 = skip_ws(s, j2);
            if j3 < s.len() && s[j3] == ':' {
                lemma_value_advances(s, j3 + 1);
                match parse_value(s, j3 + 1) {
                    Some((v, j4)) => {
                        lemma_skip_ws_bounds(s, j4);
                    },
                    None => {},
                }
            }
        },
        None => {},
    }
}

/// Parse an object whose opening brace follows optional whitespace at `i`.
pub open spec fn parse_object(s: Seq<char>, i: int) -> Option<
    (Seq<(Seq<char>, JsonValueV)>, int),
> {
    let j = skip_ws(s, i);
    if 0 <= j < s.len() && s[j] == '{' {
        let j2 = skip_ws(s, j + 1);
        if j2 < s.len() && s[j2] == '}' {
            Some((Seq::empty(), j2 + 1))
        } else {
            parse_members(s, j + 1)
        }
    } else {
        None
    }
}

/// Parse a whole document: one object, surrounded by whitespace only.
pub open spec fn parse_document(s: Seq<char>) -> Option<Seq<(Seq<char>, JsonValueV)>> {
    match parse_object(s, 0) {
        Some((ms, j)) => {
            if skip_ws(s, j) == s.len() {
                Some(ms)
            } else {
                None
            }
        },
        None => None,
    }
}

// ------------------------------------------------------------------
// Executable parser.
// ------------------------------------------------------------------

fn skip_ws_exec(s: &str, i: usize, n: usize) -> (r: usize)
    requires
        n == s@.len(),
        i <= n,
    ensures
        r == skip_ws(s@, i as int),
        i <= r <= n,
    decreases n - i,
{
    if i < n {
        let c = s.get_char(i);
        if c == ' ' || c == '\t' || c == '\n' || c == '\r' {
            skip_ws_exec(s, i + 1, n)
        } else {
            i
        }
    } else {
        i
    }
}

fn unescape_exec(c: char) -> (r: Option<char>)
    ensures
        r == unescaped_char(c),
{
    if c == '"' {
        Some('"')
    } else if c == '\\' {
        Some('\\')
    } else if c == '/' {
        Some('/')
    } else if c == 'n' {
        Some('\n')
    } else if c == 't' {
        Some('\t')
    } else if c == 'r' {
        Some('\r')
    } else if c == 'b' {
        Some('\u{0008}')
    } else if c == 'f' {
        Some('\u{000C}')
    } else {
        None
    }
}

fn parse_string_body_exec(s: &str, i: usize, n: usize) -> (r: Option<(Vec<char>, usize)>)
    requires
        n == s@.len(),
        i <= n,
    ensures
        match r {
            Some((t, j)) => parse_string_body(s@, i as int) == Some((t@, j as int)) && i < j <= n,
            None => parse_string_body(s@, i as int) is None,
        },
    decreases n - i,
{
    if i >= n {
        None
    } else {
        let c = s.get_char(i);
        if c == '"' {
            Some((Vec::new(), i + 1))
        } else if c == '\\' {
            if i + 1 < n {
                match unescape_exec(s.get_char(i + 1)) {
                    Some(u) => match parse_string_body_exec(s, i + 2, n) {
                        Some((t, j)) => {
                            let mut t = t;
                            let mut out: Vec<char> = Vec::new();
                            out.push(u);
                            out.append(&mut t);
                            proof {
                                assert(out@ =~= seq![u] + out@.drop_first());
                            }
                            Some((out, j))
                        },
                        None => None,
                    },
                    None => None,
                }
            } else {
                None
            }
        } else if (c as u32) < 32 {
            None
        } else {
            match parse_string_body_exec(s, i + 1, n) {
                Some((t, j)) => {
                    let mut t = t;
                    let mut out: Vec<char> = Vec::new();
                    out.push(c);
                    out.append(&mut t);
                    proof {
                        assert(out@ =~= seq![c] + out@.drop_first());
                    }
                    Some((out, j))
                },
                None => None,
            }
        }
    }
}

fn parse_string_at_exec(s: &str, i: usize, n: usize) -> (r: Option<(Vec<char>, usize)>)
    requires
        n == s@.len(),
        i <= n,
    ensures
        match r {
            Some((t, j)) => parse_string_at(s@, i as int) == Some((t@, j as int)) && i < j <= n,
            None => parse_string_at(s@, i as int) is None,
        },
{
    if i < n && s.get_char(i) == '"' {
        parse_string_body_exec(s, i + 1, n)
    } else {
        None
    }
}

fn parse_array_items_exec(s: &str, i: usize, n: usize) -> (r: Option<(Vec<String>, usize)>)
    requires
        n == s@.len(),
        i <= n,
    ensures
        match r {
            Some((a, j)) => parse_array_items(s@, i as int) == Some((strings_view(a@), j as int))
                && i < j <= n,
            None => parse_array_items(s@, i as int) is None,
        },
    decreases n - i,
{
    let j1 = skip_ws_exec(s, i, n);
    match parse_string_at_exec(s, j1, n) {
        None => None,
        Some((item, j2)) => {
            let j3 = skip_ws_exec(s, j2, n);
            if j3 < n {
                let c = s.get_char(j3);
                if c == ',' {
                    match parse_array_items_exec(s, j3 + 1, n) {
                        Some((rest, j4)) => {
                            let mut rest = rest;
                            let mut out: Vec<String> = Vec::new();
                            out.push(chars_to_string(&item));
                            out.append(&mut rest);
                            proof {
                                assert(strings_view(out@) =~= seq![item@] + strings_view(
                                    out@.drop_first(),
                                ));
                            }
                            Some((out, j4))
                        },
                        None => None,
                    }
                } else if c == ']' {
                    let mut out: Vec<String> = Vec::new();
                    out.push(chars_to_string(&item));
                    proof {
                        assert(strings_view(out@) =~= seq![item@]);
                    }
                    Some((out, j3 + 1))
                } else {
                    None
                }
            } else {
                None
            }
        },
    }
}

fn parse_value_exec(s: &str, i: usize, n: usize) -> (r: Option<(JsonValue, usize)>)
    requires
        n == s@.len(),
        i <= n,
    ensures
        match r {
            Some((v, j)) => parse_value(s@, i as int) == Some((v@, j as int)) && i < j <= n,
            None => parse_value(s@, i as int) is None,
        },
{
    let j = skip_ws_exec(s, i, n);
    if j < n {
        let c = s.get_char(j);
        if c == '"' {
            match parse_string_at_exec(s, j, n) {
                Some((t, k)) => Some((JsonValue::Str(chars_to_string(&t)), k)),
                None => None,
            }
        } else if c == '[' {
            let j2 = skip_ws_exec(s, j + 1, n);
            if j2 < n && s.get_char(j2) == ']' {
                let out: Vec<String> = Vec::new();
                proof {
                    assert(strings_view(out@) =~= Seq::<Seq<char>>::empty());
                }
                Some((JsonValue::Arr(out), j2 + 1))
            } else {
                match parse_array_items_exec(s, j + 1, n) {
                    Some((a, k)) => Some((JsonValue::Arr(a), k)),
                    None => None,
                }
            }
        } else {
            None
        }
    } else {
        None
    }
}

fn parse_members_exec(s: &str, i: usize, n: usize) -> (r: Option<
    (Vec<(String, JsonValue)>, usize),
>)
    requires
        n == s@.len(),
        i <= n,
    ensures
        match r {
            Some((m, j)) => parse_members(s@, i as int) == Some((members_view(m@), j as int))
                && i < j <= n,
            None => parse_members(s@, i as int) is None,
        },
    decreases n - i,
{
    let j1 = skip_ws_exec(s, i, n);
    match parse_string_at_exec(s, j1, n) {
        None => None,
        Some((key, j2)) => {
            let j3 = skip_ws_exec(s, j2, n);
            if j3 < n && s.get_char(j3) == ':' {
                match parse_value_exec(s, j3 + 1, n) {
                    None => None,
                    Some((v, j4)) => {
                        let j5 = skip_ws_exec(s, j4, n);
                        if j5 < n {
                            let c = s.get_char(j5);
                            if c == ',' {
                                match parse_members_exec(s, j5 + 1, n) {
                                    Some((rest, j6)) => {
                                        let mut rest = rest;
                                        let mut out: Vec<(String, JsonValue)> = Vec::new();
                                        out.push((chars_to_string(&key), v));
                                        out.append(&mut rest);
                                        proof {
                                            assert(members_view(out@) =~= seq![
                                                (key@, out@[0].1@),
                                            ] + members_view(out@.drop_first()));
                                        }
                                        Some((out, j6))
                                    },
                                    None => None,
                                }
                            } else if c == '}' {
                                let mut out: Vec<(String, JsonValue)> = Vec::new();
                                out.push((chars_to_string(&key), v));
                                proof {
                                    assert(members_view(out@) =~= seq![(key@, out@[0].1@)]);
                                }
                                Some((out, j5 + 1))
                            } else {
                                None
                            }
                        } else {
                            None
                        }
                    },
                }
            } else {
                None
            }
        },
    }
}

/// Parse a whole document into its members, or `None` when the text is not
/// a document of the expected shape.
pub fn parse_document_exec(s: &str) -> (r: Option<Vec<(String, JsonValue)>>)
    ensures
        match r {
            Some(m) => parse_document(s@) == Some(members_view(m@)),
            None => parse_document(s@) is None,
        },
{
    let n = s.unicode_len();
    let j = skip_ws_exec(s, 0, n);
    if j < n && s.get_char(j) == '{' {
        let j2 = skip_ws_exec(s, j + 1, n);
        let parsed: Option<(Vec<(String, JsonValue)>, usize)> = if j2 < n && s.get_char(j2) == '}' {
            let out: Vec<(String, JsonValue)> = Vec::new();
            proof {
                assert(members_view(out@) =~= Seq::<(Seq<char>, JsonValueV)>::empty());
            }
            Some((out, j2 + 1))
        } else {
            parse_members_exec(s, j + 1, n)
        };
        match parsed {
            Some((m, k)) => {
                if skip_ws_exec(s, k, n) == n {
                    Some(m)
                } else {
                    None
                }
            },
            None => None,
        }
    } else {
        None
    }
}

// ------------------------------------------------------------------
// Renderer.
// ------------------------------------------------------------------

/// Hexadecimal digit for a value below sixteen.
pub open spec fn hex_digit(n: int) -> char {
    if n == 0 { '0' } else if n == 1 { '1' } else if n == 2 { '2' } else if n == 3 { '3' }
    else if n == 4 { '4' } else if n == 5 { '5' } else if n == 6 { '6' } else if n == 7 { '7' }
    else if n == 8 { '8' } else if n == 9 { '9' } else if n == 10 { 'a' } else if n == 11 { 'b' }
    else if n == 12 { 'c' } else if n == 13 { 'd' } else if n == 14 { 'e' } else { 'f' }
}

/// The characters a string character is rendered as inside a string literal.
pub open spec fn escaped_char(c: char) -> Seq<char> {
    if c == '"' {
        seq!['\\', '"']
    } else if c == '\\' {
        seq!['\\', '\\']
    } else if c == '\n' {
        seq!['\\', 'n']
    } else if c == '\t' {
        seq!['\\', 't']
    } else if c == '\r' {
        seq!['\\', 'r']
    } else if c == '\u{0008}' {
        seq!['\\', 'b']
    } else if c == '\u{000C}' {
        seq!['\\', 'f']
    } else if (c as u32) < 32 {
        seq!['\\', 'u', '0', '0', hex_digit((c as u32 / 16) as int), hex_digit((c as u32 % 16) as int)]
    } else {
        seq![c]
    }
}

/// The rendering of the characters of `s` from position `i` on.
pub open spec fn escaped_from(s: Seq<char>, i: int) -> Seq<char>
    decreases s.len() - i,
{
    if i < 0 || i >= s.len() {
        Seq::empty()
    } else {
        escaped_char(s[i]) + escaped_from(s, i + 1)
    }
}

/// A string literal: quote, escaped characters, quote.
pub open spec fn rendered_string(s: Seq<char>) -> Seq<char> {
    seq!['"'] + escaped_from(s, 0) + seq!['"']
}

/// Comma-separated string literals for the items of `a` from `i` on.
pub open spec fn rendered_ids_from(a: Seq<Seq<char>>, i: int) -> Seq<char>
    decreases a.len() - i,
{
    if i < 0 || i >= a.len() {
        Seq::empty()
    } else if i == a.len() - 1 {
        rendered_string(a[i])
    } else {
        rendered_string(a[i]) + seq![','] + rendered_ids_from(a, i + 1)
    }
}

fn hex_digit_exec(n: u32) -> (r: char)
    requires
        n < 16,
    ensures
        r == hex_digit(n as int),
{
    if n == 0 { '0' } else if n == 1 { '1' } else if n == 2 { '2' } else if n == 3 { '3' }
    else if n == 4 { '4' } else if n == 5 { '5' } else if n == 6 { '6' } else if n == 7 { '7' }
    else if n == 8 { '8' } else if n == 9 { '9' } else if n == 10 { 'a' } else if n == 11 { 'b' }
    else if n == 12 { 'c' } else if n == 13 { 'd' } else if n == 14 { 'e' } else { 'f' }
}

pub fn push_escaped_char(out: &mut Vec<char>, c: char)
    ensures
        final(out)@ == old(out)@ + escaped_char(c),
{
    let ghost out0 = out@;
    if c == '"' {
        out.push('\\');
        out.push('"');
    } else if c == '\\' {
        out.push('\\');
        out.push('\\');
    } else if c == '\n' {
        out.push('\\');
        out.push('n');
    } else if c == '\t' {
        out.push('\\');
        out.push('t');
    } else if c == '\r' {
        out.push('\\');
        out.push('r');
    } else if c == '\u{0008}' {
        out.push('\\');
        out.push('b');
    } else if c == '\u{000C}' {
        out.push('\\');
        out.push('f');
    } else if (c as u32) < 32 {
        out.push('\\');
        out.push('u');
        out.push('0');
        out.push('0');
        out.push(hex_digit_exec((c as u32) / 16));
        out.push(hex_digit_exec((c as u32) % 16));
    } else {
        out.push(c);
    }
    proof {
        assert(out@ =~= out0 + escaped_char(c));
    }
}

pub fn push_rendered_string(out: &mut Vec<char>, s: &str)
    ensures
        final(out)@ == old(out)@ + rendered_string(s@),
{
    let ghost out0 = out@;
    let n = s.unicode_len();
    out.push('"');
    let mut j: usize = 0;
    while j < n
        invariant
            n == s@.len(),
            j <= n,
            out@ + escaped_from(s@, j as int) == out0 + seq!['"'] + escaped_from(s@, 0),
        decreases n - j,
    {
        let c = s.get_char(j);
        proof {
            assert((out@ + escaped_char(c)) + escaped_from(s@, j as int + 1) =~= out@
                + escaped_from(s@, j as int));
        }
        push_escaped_char(out, c);
        j = j + 1;
    }
    out.push('"');
    proof {
        assert(escaped_from(s@, n as int) =~= Seq::<char>::empty());
        assert(out@ =~= (out0 + seq!['"'] + escaped_from(s@, 0)).push('"'));
        assert(out@ =~= out0 + rendered_string(s@));
    }
}

/// Render the comma-separated items of `v` between the array brackets.
pub fn push_rendered_ids(out: &mut Vec<char>, v: &Vec<String>)
    ensures
        final(out)@ == old(out)@ + rendered_ids_from(strings_view(v@), 0),
{
    let ghost out0 = out@;
    let ghost a = strings_view(v@);
    let mut j: usize = 0;
    while j < v.len()
        invariant
            a == strings_view(v@),
            j <= v.len(),
            a.len() == v.len(),
            out@ + rendered_ids_from(a, j as int) == out0 + rendered_ids_from(a, 0),
        decreases v.len() - j,
    {
        push_rendered_string(out, v[j].as_str());
        if j + 1 < v.len() {
            out.push(',');
            proof {
                assert(out@ + rendered_ids_from(a, j as int + 1) =~= out0 + rendered_ids_from(
                    a,
                    0,
                ));
            }
        } else {
            proof {
                assert(rendered_ids_from(a, j as int) =~= rendered_string(a[j as int]));
                assert(rendered_ids_from(a, j as int + 1) =~= Seq::<char>::empty());
                assert(out@ + rendered_ids_from(a, j as int + 1) =~= out0 + rendered_ids_from(
                    a,
                    0,
                ));
            }
        }
        j = j + 1;
    }
    proof {
        assert(rendered_ids_from(a, v.len() as int) =~= Seq::<char>::empty());
        assert(out@ =~= out0 + rendered_ids_from(a, 0));
    }
}

} // verus!
