use vstd::prelude::*;

use crate::snippet::Snippet;
use crate::snippet::SnippetModel;

verus! {

/// The hexadecimal digit character for a value below 16.
pub open spec fn hex_char(d: int) -> char {
    if d == 0 {
        '0'
    } else if d == 1 {
        '1'
    } else if d == 2 {
        '2'
    } else if d == 3 {
        '3'
    } else if d == 4 {
        '4'
    } else if d == 5 {
        '5'
    } else if d == 6 {
        '6'
    } else if d == 7 {
        '7'
    } else if d == 8 {
        '8'
    } else if d == 9 {
        '9'
    } else if d == 10 {
        'a'
    } else if d == 11 {
        'b'
    } else if d == 12 {
        'c'
    } else if d == 13 {
        'd'
    } else if d == 14 {
        'e'
    } else {
        'f'
    }
}

/// The numeric value of a hexadecimal digit character, upper or lower case.
pub open spec fn hex_val(c: char) -> Option<int> {
    if c == '0' {
        Some(0int)
    } else if c == '1' {
        Some(1int)
    } else if c == '2' {
        Some(2int)
    } else if c == '3' {
        Some(3int)
    } else if c == '4' {
        Some(4int)
    } else if c == '5' {
        Some(5int)
    } else if c == '6' {
        Some(6int)
    } else if c == '7' {
        Some(7int)
    } else if c == '8' {
        Some(8int)
    } else if c == '9' {
        Some(9int)
    } else if c == 'a' || c == 'A' {
        Some(10int)
    } else if c == 'b' || c == 'B' {
        Some(11int)
    } else if c == 'c' || c == 'C' {
        Some(12int)
    } else if c == 'd' || c == 'D' {
        Some(13int)
    } else if c == 'e' || c == 'E' {
        Some(14int)
    } else if c == 'f' || c == 'F' {
        Some(15int)
    } else {
        None
    }
}

/// The JSON escape of one character: quote and backslash get a backslash
/// escape, control characters get a `\u00XX` escape, anything else stands
/// for itself.
pub open spec fn escape_char(c: char) -> Seq<char> {
    if c == '"' {
        seq!['\\', '"']
    } else if c == '\\' {
        seq!['\\', '\\']
    } else if (c as u32) < 32 {
        seq!['\\', 'u', '0', '0', hex_char((c as u32) as int / 16), hex_char((c as u32) as int % 16)]
    } else {
        seq![c]
    }
}

/// The JSON escape of a whole string.
pub open spec fn escape_string(s: Seq<char>) -> Seq<char>
    decreases s.len(),
{
    if s.len() == 0 {
        Seq::empty()
    } else {
        escape_char(s[0]) + escape_string(s.skip(1))
    }
}

/// A JSON string literal: the escaped text between double quotes.
pub open spec fn quoted(s: Seq<char>) -> Seq<char> {
    seq!['"'] + escape_string(s) + seq!['"']
}

/// The characters of the JSON key `"title"`, quotes included.
pub open spec fn title_key() -> Seq<char> {
    seq!['"', 't', 'i', 't', 'l', 'e', '"']
}

/// The characters of the JSON key `"description"`, quotes included.
pub open spec fn description_key() -> Seq<char> {
    seq!['"', 'd', 'e', 's', 'c', 'r', 'i', 'p', 't', 'i', 'o', 'n', '"']
}

/// The JSON object for one snippet: both fields, title first.
pub open spec fn encode_snippet(m: SnippetModel) -> Seq<char> {
    seq!['{'] + title_key() + seq![':'] + quoted(m.title) + seq![','] + description_key() + seq![':']
        + quoted(m.description) + seq!['}']
}

/// The comma-separated JSON objects of a snippet list.
pub open spec fn encode_items(l: Seq<SnippetModel>) -> Seq<char>
    decreases l.len(),
{
    if l.len() == 0 {
        Seq::empty()
    } else if l.len() == 1 {
        encode_snippet(l[0])
    } else {
        encode_snippet(l[0]) + seq![','] + encode_items(l.skip(1))
    }
}

/// The persisted form of a snippet list: a JSON array of snippet objects.
pub open spec fn encode_list(l: Seq<SnippetModel>) -> Seq<char> {
    seq!['['] + encode_items(l) + seq![']']
}

/// JSON whitespace.
pub open spec fn is_ws(c: char) -> bool {
    c == ' ' || c == '\n' || c == '\t' || c == '\r'
}

/// The input with its leading whitespace removed.
pub open spec fn skip_ws(s: Seq<char>) -> Seq<char>
    decreases s.len(),
{
    if s.len() > 0 && is_ws(s[0]) {
        skip_ws(s.skip(1))
    } else {
        s
    }
}

/// The character a simple backslash escape stands for, if the given
/// character is one.
pub open spec fn simple_escape(e: char) -> Option<char> {
    if e == '"' {
        Some('"')
    } else if e == '\\' {
        Some('\\')
    } else if e == '/' {
        Some('/')
    } else if e == 'b' {
        Some('\u{8}')
    } else if e == 'f' {
        Some('\u{c}')
    } else if e == 'n' {
        Some('\n')
    } else if e == 'r' {
        Some('\r')
    } else if e == 't' {
        Some('\t')
    } else {
        None
    }
}

/// Parses the body of a JSON string literal, after its opening quote: the
/// decoded characters and what follows the closing quote.  Backslash escapes
/// cover the simple escapes and `\u` escapes for code points below 256;
/// anything else malformed fails the parse.
pub open spec fn parse_string_body(s: Seq<char>) -> Option<(Seq<char>, Seq<char>)>
    decreases s.len(),
{
    if s.len() == 0 {
        None
    } else if s[0] == '"' {
        Some((Seq::empty(), s.skip(1)))
    } else if s[0] == '\\' {
        if s.len() < 2 {
            None
        } else if s[1] == 'u' {
            if s.len() < 6 {
                None
            } else {
                match (hex_val(s[2]), hex_val(s[3]), hex_val(s[4]), hex_val(s[5])) {
                    (Some(d0), Some(d1), Some(d2), Some(d3)) => {
                        let code = d0 * 4096 + d1 * 256 + d2 * 16 + d3;
                        if code < 256 {
                            match parse_string_body(s.skip(6)) {
                                Some((t, rest)) => Some(
                                    (seq![((code as u8) as char)] + t, rest),
                                ),
                                None => None,
                            }
                        } else {
                            None
                        }
                    },
                    _ => None,
                }
            }
        } else {
            match simple_escape(s[1]) {
                Some(c) => match parse_string_body(s.skip(2)) {
                    Some((t, rest)) => Some((seq![c] + t, rest)),
                    None => None,
                },
                None => None,
            }
        }
    } else {
        match parse_string_body(s.skip(1)) {
            Some((t, rest)) => Some((seq![s[0]] + t, rest)),
            None => None,
        }
    }
}

/// Consumes one expected character, after optional whitespace.
pub open spec fn expect(s: Seq<char>, c: char) -> Option<Seq<char>> {
    let t = skip_ws(s);
    if t.len() > 0 && t[0] == c {
        Some(t.skip(1))
    } else {
        None
    }
}

/// Consumes an expected literal run of characters, after optional
/// whitespace.
pub open spec fn expect_chars(s: Seq<char>, key: Seq<char>) -> Option<Seq<char>> {
    let t = skip_ws(s);
    if key.len() <= t.len() && t.take(key.len() as int) == key {
        Some(t.skip(key.len() as int))
    } else {
        None
    }
}

/// Parses a JSON string literal, after optional whitespace.
pub open spec fn parse_quoted(s: Seq<char>) -> Option<(Seq<char>, Seq<char>)> {
    let t = skip_ws(s);
    if t.len() > 0 && t[0] == '"' {
        parse_string_body(t.skip(1))
    } else {
        None
    }
}

/// Parses one snippet object: `{"title": <string>, "description": <string>}`
/// with optional whitespace between tokens.
pub open spec fn parse_snippet(s: Seq<char>) -> Option<(SnippetModel, Seq<char>)> {
    match expect(s, '{') {
        None => None,
        Some(s1) => match expect_chars(s1, title_key()) {
            None => None,
            Some(s2) => match expect(s2, ':') {
                None => None,
                Some(s3) => match parse_quoted(s3) {
                    None => None,
                    Some((title, s4)) => match expect(s4, ',') {
                        None => None,
                        Some(s5) => match expect_chars(s5, description_key()) {
                            None => None,
                            Some(s6) => match expect(s6, ':') {
                                None => None,
                                Some(s7) => match parse_quoted(s7) {
                                    None => None,
                                    Some((description, s8)) => match expect(s8, '}') {
                                        None => None,
                                        Some(s9) => Some(
                                            (SnippetModel { title, description }, s9),
                                        ),
                                    },
                                },
                            },
                        },
                    },
                },
            },
        },
    }
}

/// Parses one or more comma-separated snippet objects followed by the
/// closing `]` of the array.
pub open spec fn parse_items(s: Seq<char>) -> Option<(Seq<SnippetModel>, Seq<char>)>
    decreases s.len(),
        via parse_items_decreases
{
    match parse_snippet(s) {
        None => None,
        Some((m, r)) => {
            let t = skip_ws(r);
            if t.len() > 0 && t[0] == ',' {
                match parse_items(t.skip(1)) {
                    None => None,
                    Some((ms, r2)) => Some((seq![m] + ms, r2)),
                }
            } else if t.len() > 0 && t[0] == ']' {
                Some((seq![m], t.skip(1)))
            } else {
                None
            }
        },
    }
}

#[via_fn]
proof fn parse_items_decreases(s: Seq<char>) {
    lemma_parse_snippet_len(s);
    match parse_snippet(s) {
        Some((m, r)) => {
            lemma_skip_ws_len(r);
        },
        None => {},
    }
}

/// Parses a whole persisted file: a single JSON array of snippet objects,
/// with nothing but whitespace around it.
pub open spec fn parse_snippet_list(s: Seq<char>) -> Option<Seq<SnippetModel>> {
    match expect(s, '[') {
        None => None,
        Some(s1) => {
            let t = skip_ws(s1);
            if t.len() > 0 && t[0] == ']' {
                if skip_ws(t.skip(1)).len() == 0 {
                    Some(Seq::empty())
                } else {
                    None
                }
            } else {
                match parse_items(s1) {
                    None => None,
                    Some((ms, r)) => if skip_ws(r).len() == 0 {
                        Some(ms)
                    } else {
                        None
                    },
                }
            }
        },
    }
}

pub proof fn lemma_skip_ws_len(s: Seq<char>)
    ensures
        skip_ws(s).len() <= s.len(),
    decreases s.len(),
{
    if s.len() > 0 && is_ws(s[0]) {
        lemma_skip_ws_len(s.skip(1));
    }
}

pub proof fn lemma_parse_string_body_len(s: Seq<char>)
    ensures
        parse_string_body(s) matches Some((t, rest)) ==> rest.len() < s.len(),
    decreases s.len(),
{
    if s.len() == 0 {
    } else if s[0] == '"' {
    } else if s[0] == '\\' {
        if s.len() >= 6 {
            lemma_parse_string_body_len(s.skip(6));
        }
        if s.len() >= 2 {
            lemma_parse_string_body_len(s.skip(2));
        }
    } else {
        lemma_parse_string_body_len(s.skip(1));
    }
}

pub proof fn lemma_expect_len(s: Seq<char>, c: char)
    ensures
        expect(s, c) matches Some(r) ==> r.len() < s.len(),
{
    lemma_skip_ws_len(s);
}

pub proof fn lemma_expect_chars_len(s: Seq<char>, key: Seq<char>)
    ensures
        expect_chars(s, key) matches Some(r) ==> r.len() + key.len() <= s.len(),
{
    lemma_skip_ws_len(s);
}

pub proof fn lemma_parse_quoted_len(s: Seq<char>)
    ensures
        parse_quoted(s) matches Some((t, rest)) ==> rest.len() < s.len(),
{
    lemma_skip_ws_len(s);
    let t = skip_ws(s);
    if t.len() > 0 && t[0] == '"' {
        lemma_parse_string_body_len(t.skip(1));
    }
}


pub proof fn lemma_parse_snippet_len(s: Seq<char>)
    ensures
        parse_snippet(s) matches Some((m, r)) ==> r.len() < s.len(),
{
    lemma_expect_len(s, '{');
    match expect(s, '{') {
        None => {},
        Some(s1) => {
            lemma_expect_chars_len(s1, title_key());
            match expect_chars(s1, title_key()) {
                None => {},
                Some(s2) => {
                    lemma_expect_len(s2, ':');
                    match expect(s2, ':') {
                        None => {},
                        Some(s3) => {
                            lemma_parse_quoted_len(s3);
                            match parse_quoted(s3) {
                                None => {},
                                Some((title, s4)) => {
                                    lemma_expect_len(s4, ',');
                                    match expect(s4, ',') {
                                        None => {},
                                        Some(s5) => {
                                            lemma_expect_chars_len(s5, description_key());
                                            match expect_chars(s5, description_key()) {
                                                None => {},
                                                Some(s6) => {
                                                    lemma_expect_len(s6, ':');
                                                    match expect(s6, ':') {
                                                        None => {},
                                                        Some(s7) => {
                                                            lemma_parse_quoted_len(s7);
                                                            match parse_quoted(s7) {
                                                                None => {},
                                                                Some((d, s8)) => {
                                                                    lemma_expect_len(s8, '}');
                                                                },
                                                            }
                                                        },
                                                    }
                                                },
                                            }
                                        },
                                    }
                                },
                            }
                        },
                    }
                },
            }
        },
    }
}

proof fn lemma_skip_ws_nonws(s: Seq<char>)
    requires
        s.len() == 0 || !is_ws(s[0]),
    ensures
        skip_ws(s) == s,
{
}

proof fn lemma_control_char_cast(c: char)
    requires
        (c as u32) < 32,
    ensures
        (((c as u32) as u8) as char) == c,
{
}

proof fn lemma_hex_roundtrip(d: int)
    requires
        0 <= d < 16,
    ensures
        hex_val(hex_char(d)) == Some(d),
{
}

proof fn lemma_parse_string_body_escape(t: Seq<char>, rest: Seq<char>)
    ensures
        parse_string_body(escape_string(t) + seq!['"'] + rest) == Some((t, rest)),
    decreases t.len(),
{
    let s = escape_string(t) + seq!['"'] + rest;
    if t.len() == 0 {
        assert(escape_string(t) == Seq::<char>::empty());
        assert(s =~= seq!['"'] + rest);
        assert(s[0] == '"');
        assert(s.skip(1) =~= rest);
    } else {
        let c = t[0];
        let t2 = t.skip(1);
        lemma_parse_string_body_escape(t2, rest);
        let s2 = escape_string(t2) + seq!['"'] + rest;
        assert(escape_string(t) == escape_char(c) + escape_string(t2));
        assert(seq![c] + t2 =~= t);
        if c == '"' {
            assert(s =~= seq!['\\', '"'] + s2);
            assert(s.skip(2) =~= s2);
            assert(simple_escape('"') == Some('"'));
        } else if c == '\\' {
            assert(s =~= seq!['\\', '\\'] + s2);
            assert(s.skip(2) =~= s2);
            assert(simple_escape('\\') == Some('\\'));
        } else if (c as u32) < 32 {
            let u = (c as u32) as int;
            let h1 = hex_char(u / 16);
            let h2 = hex_char(u % 16);
            assert(s =~= seq!['\\', 'u', '0', '0', h1, h2] + s2);
            assert(s[1] == 'u');
            lemma_hex_roundtrip(u / 16);
            lemma_hex_roundtrip(u % 16);
            assert(hex_val(s[2]) == Some(0int));
            assert(hex_val(s[3]) == Some(0int));
            vstd::arithmetic::div_mod::lemma_fundamental_div_mod(u, 16);
            assert(0 * 4096 + 0 * 256 + (u / 16) * 16 + u % 16 == u);
            assert(0 <= u < 32);
            assert(u as u8 == (c as u32) as u8);
            lemma_control_char_cast(c);
            assert((((u as u8) as char)) == c);
            assert(s.skip(6) =~= s2);
        } else {
            assert(s =~= seq![c] + s2);
            assert(s[0] == c);
            assert(s.skip(1) =~= s2);
        }
    }
}

proof fn lemma_parse_quoted_encode(t: Seq<char>, rest: Seq<char>)
    ensures
        parse_quoted(quoted(t) + rest) == Some((t, rest)),
{
    let s = quoted(t) + rest;
    assert(s[0] == '"');
    lemma_skip_ws_nonws(s);
    assert(s.skip(1) =~= escape_string(t) + seq!['"'] + rest);
    lemma_parse_string_body_escape(t, rest);
}

proof fn lemma_expect_head(c: char, x: Seq<char>)
    requires
        !is_ws(c),
    ensures
        expect(seq![c] + x, c) == Some(x),
{
    let s = seq![c] + x;
    assert(s[0] == c);
    lemma_skip_ws_nonws(s);
    assert(s.skip(1) =~= x);
}

proof fn lemma_expect_chars_head(key: Seq<char>, x: Seq<char>)
    requires
        key.len() > 0,
        !is_ws(key[0]),
    ensures
        expect_chars(key + x, key) == Some(x),
{
    let s = key + x;
    assert(s[0] == key[0]);
    lemma_skip_ws_nonws(s);
    assert(s.take(key.len() as int) =~= key);
    assert(s.skip(key.len() as int) =~= x);
}

#[verifier::rlimit(60)]
proof fn lemma_parse_snippet_encode(m: SnippetModel, rest: Seq<char>)
    ensures
        parse_snippet(encode_snippet(m) + rest) == Some((m, rest)),
{
    let s = encode_snippet(m) + rest;
    let x8: Seq<char> = rest;
    let x7: Seq<char> = seq!['}'] + x8;
    let x6: Seq<char> = quoted(m.description) + x7;
    let x5: Seq<char> = seq![':'] + x6;
    let x4: Seq<char> = description_key() + x5;
    let x3: Seq<char> = seq![','] + x4;
    let x2: Seq<char> = quoted(m.title) + x3;
    let x1: Seq<char> = seq![':'] + x2;
    let x0: Seq<char> = title_key() + x1;
    assert(s =~= seq!['{'] + x0);
    lemma_expect_head('{', x0);
    assert(expect(s, '{') == Some(x0));
    lemma_expect_chars_head(title_key(), x1);
    lemma_expect_head(':', x2);
    lemma_parse_quoted_encode(m.title, x3);
    assert(parse_quoted(x2) == Some((m.title, x3)));
    lemma_expect_head(',', x4);
    lemma_expect_chars_head(description_key(), x5);
    lemma_expect_head(':', x6);
    lemma_parse_quoted_encode(m.description, x7);
    assert(parse_quoted(x6) == Some((m.description, x7)));
    lemma_expect_head('}', x8);
}

proof fn lemma_parse_items_encode(l: Seq<SnippetModel>, rest: Seq<char>)
    requires
        l.len() >= 1,
    ensures
        parse_items(encode_items(l) + seq![']'] + rest) == Some((l, rest)),
    decreases l.len(),
{
    let s = encode_items(l) + seq![']'] + rest;
    if l.len() == 1 {
        let r: Seq<char> = seq![']'] + rest;
        assert(s =~= encode_snippet(l[0]) + r);
        lemma_parse_snippet_encode(l[0], r);
        lemma_skip_ws_nonws(r);
        assert(r.skip(1) =~= rest);
        assert(seq![l[0]] =~= l);
    } else {
        let l2 = l.skip(1);
        let r: Seq<char> = seq![','] + (encode_items(l2) + seq![']'] + rest);
        assert(s =~= encode_snippet(l[0]) + r);
        lemma_parse_snippet_encode(l[0], r);
        lemma_skip_ws_nonws(r);
        assert(r.skip(1) =~= encode_items(l2) + seq![']'] + rest);
        lemma_parse_items_encode(l2, rest);
        assert(seq![l[0]] + l2 =~= l);
    }
}

/// Round-trip: parsing the persisted form of any snippet list yields that
/// same list, entry for entry and in the same order.
pub proof fn lemma_round_trip(l: Seq<SnippetModel>)
    ensures
        parse_snippet_list(encode_list(l)) == Some(l),
{
    let s = encode_list(l);
    let s1 = encode_items(l) + seq![']'];
    assert(s =~= seq!['['] + s1);
    lemma_expect_head('[', s1);
    assert(expect(s, '[') == Some(s1));
    if l.len() == 0 {
        assert(encode_items(l) == Seq::<char>::empty());
        assert(s1 =~= seq![']']);
        lemma_skip_ws_nonws(s1);
        assert(s1.skip(1) =~= Seq::<char>::empty());
        assert(skip_ws(Seq::<char>::empty()).len() == 0);
        assert(l =~= Seq::<SnippetModel>::empty());
    } else {
        assert(encode_snippet(l[0])[0] == '{');
        assert(s1[0] == '{');
        lemma_skip_ws_nonws(s1);
        lemma_parse_items_encode(l, Seq::<char>::empty());
        assert(encode_items(l) + seq![']'] + Seq::<char>::empty() =~= s1);
        assert(parse_items(s1) == Some((l, Seq::<char>::empty())));
        assert(skip_ws(Seq::<char>::empty()).len() == 0);
    }
}

fn hex_char_exec(d: u8) -> (c: char)
    requires
        d < 16,
    ensures
        c == hex_char(d as int),
{
    if d == 0 {
        '0'
    } else if d == 1 {
        '1'
    } else if d == 2 {
        '2'
    } else if d == 3 {
        '3'
    } else if d == 4 {
        '4'
    } else if d == 5 {
        '5'
    } else if d == 6 {
        '6'
    } else if d == 7 {
        '7'
    } else if d == 8 {
        '8'
    } else if d == 9 {
        '9'
    } else if d == 10 {
        'a'
    } else if d == 11 {
        'b'
    } else if d == 12 {
        'c'
    } else if d == 13 {
        'd'
    } else if d == 14 {
        'e'
    } else {
        'f'
    }
}

fn push_escaped(out: &mut Vec<char>, c: char)
    ensures
        final(out)@ == old(out)@ + escape_char(c),
{
    if c == '"' {
        out.push('\\');
        out.push('"');
        assert(out@ =~= old(out)@ + escape_char(c));
    } else if c == '\\' {
        out.push('\\');
        out.push('\\');
        assert(out@ =~= old(out)@ + escape_char(c));
    } else {
        let u = c as u32;
        if u < 32 {
            out.push('\\');
            out.push('u');
            out.push('0');
            out.push('0');
            out.push(hex_char_exec((u / 16) as u8));
            out.push(hex_char_exec((u % 16) as u8));
            assert(out@ =~= old(out)@ + escape_char(c));
        } else {
            out.push(c);
            assert(out@ =~= old(out)@ + escape_char(c));
        }
    }
}

proof fn lemma_escape_string_snoc(t: Seq<char>, c: char)
    ensures
        escape_string(t.push(c)) == escape_string(t) + escape_char(c),
    decreases t.len(),
{
    let tc = t.push(c);
    assert(tc.len() == t.len() + 1);
    assert(escape_string(tc) == escape_char(tc[0]) + escape_string(tc.skip(1)));
    if t.len() == 0 {
        assert(tc[0] == c);
        assert(tc.skip(1) =~= Seq::<char>::empty());
        assert(escape_char(c) + Seq::<char>::empty() =~= escape_char(c));
        assert(escape_string(t) + escape_char(c) =~= escape_char(c));
    } else {
        assert(tc[0] == t[0]);
        assert(tc.skip(1) =~= t.skip(1).push(c));
        lemma_escape_string_snoc(t.skip(1), c);
        assert(escape_char(t[0]) + (escape_string(t.skip(1)) + escape_char(c)) =~= (escape_char(
            t[0],
        ) + escape_string(t.skip(1))) + escape_char(c));
    }
}

fn encode_string_into(out: &mut Vec<char>, s: &str)
    ensures
        final(out)@ == old(out)@ + quoted(s@),
{
    out.push('"');
    let n = s.unicode_len();
    let mut i: usize = 0;
    while i < n
        invariant
            n == s@.len(),
            0 <= i <= n,
            out@ == old(out)@ + seq!['"'] + escape_string(s@.take(i as int)),
        decreases n - i,
    {
        let c = s.get_char(i);
        push_escaped(out, c);
        proof {
            assert(s@.take(i + 1) =~= s@.take(i as int).push(s@[i as int]));
            lemma_escape_string_snoc(s@.take(i as int), s@[i as int]);
        }
        i = i + 1;
    }
    out.push('"');
    proof {
        assert(s@.take(n as int) =~= s@);
        assert(out@ =~= old(out)@ + quoted(s@));
    }
}

fn encode_snippet_into(out: &mut Vec<char>, s: &Snippet)
    ensures
        final(out)@ == old(out)@ + encode_snippet(s.deep_view()),
{
    out.push('{');
    out.push('"');
    out.push('t');
    out.push('i');
    out.push('t');
    out.push('l');
    out.push('e');
    out.push('"');
    out.push(':');
    assert(out@ =~= old(out)@ + seq!['{'] + title_key() + seq![':']);
    encode_string_into(out, s.title.as_str());
    out.push(',');
    out.push('"');
    out.push('d');
    out.push('e');
    out.push('s');
    out.push('c');
    out.push('r');
    out.push('i');
    out.push('p');
    out.push('t');
    out.push('i');
    out.push('o');
    out.push('n');
    out.push('"');
    out.push(':');
    encode_string_into(out, s.description.as_str());
    out.push('}');
    assert(out@ =~= old(out)@ + encode_snippet(s.deep_view()));
}

proof fn lemma_encode_items_snoc(l: Seq<SnippetModel>, m: SnippetModel)
    requires
        l.len() >= 1,
    ensures
        encode_items(l.push(m)) == encode_items(l) + seq![','] + encode_snippet(m),
    decreases l.len(),
{
    let lm = l.push(m);
    if l.len() == 1 {
        assert(lm.skip(1) =~= seq![m]);
        assert(lm[0] == l[0]);
        assert(encode_items(seq![m]) == encode_snippet(m));
        assert(encode_snippet(l[0]) + seq![','] + encode_snippet(m) =~= encode_items(l) + seq![
            ',',
        ] + encode_snippet(m));
    } else {
        assert(lm[0] == l[0]);
        assert(lm.skip(1) =~= l.skip(1).push(m));
        lemma_encode_items_snoc(l.skip(1), m);
        assert(encode_snippet(l[0]) + seq![','] + (encode_items(l.skip(1)) + seq![',']
            + encode_snippet(m)) =~= (encode_snippet(l[0]) + seq![','] + encode_items(l.skip(1)))
            + seq![','] + encode_snippet(m));
    }
}

/// Builds the persisted JSON text for the given snippet list.
pub fn encode_snippets(snippets: &Vec<Snippet>) -> (r: String)
    ensures
        r@ == encode_list(snippets.deep_view()),
{
    let ghost dv = snippets.deep_view();
    let mut out: Vec<char> = Vec::new();
    out.push('[');
    let mut i: usize = 0;
    while i < snippets.len()
        invariant
            0 <= i <= snippets@.len(),
            dv == snippets.deep_view(),
            dv.len() == snippets@.len(),
            out@ == seq!['['] + encode_items(dv.take(i as int)),
        decreases snippets@.len() - i,
    {
        if i > 0 {
            out.push(',');
        }
        let ghost pre = out@;
        encode_snippet_into(&mut out, vec_ref(snippets, i));
        proof {
            assert(snippets[i as int].deep_view() == dv[i as int]);
            assert(dv.take(i + 1) =~= dv.take(i as int).push(dv[i as int]));
            if i == 0 {
                assert(dv.take(1int) =~= seq![dv[0]]);
                assert(encode_items(seq![dv[0]]) == encode_snippet(dv[0]));
                assert(out@ =~= seq!['['] + encode_items(dv.take(1int)));
            } else {
                lemma_encode_items_snoc(dv.take(i as int), dv[i as int]);
                assert(out@ =~= seq!['['] + encode_items(dv.take(i + 1)));
            }
        }
        i = i + 1;
    }
    out.push(']');
    proof {
        assert(dv.take(dv.len() as int) =~= dv);
        assert(out@ =~= encode_list(dv));
    }
    crate::text::string_from_chars(&out)
}

fn vec_ref<'a>(v: &'a Vec<Snippet>, i: usize) -> (r: &'a Snippet)
    requires
        i < v@.len(),
    ensures
        r == &v@[i as int],
{
    &v[i]
}


fn is_ws_exec(c: char) -> (r: bool)
    ensures
        r == is_ws(c),
{
    c == ' ' || c == '\n' || c == '\t' || c == '\r'
}

fn hex_val_exec(c: char) -> (r: Option<u8>)
    ensures
        match hex_val(c) {
            Some(d) => r matches Some(x) && x as int == d,
            None => r is None,
        },
{
    if c == '0' {
        Some(0)
    } else if c == '1' {
        Some(1)
    } else if c == '2' {
        Some(2)
    } else if c == '3' {
        Some(3)
    } else if c == '4' {
        Some(4)
    } else if c == '5' {
        Some(5)
    } else if c == '6' {
        Some(6)
    } else if c == '7' {
        Some(7)
    } else if c == '8' {
        Some(8)
    } else if c == '9' {
        Some(9)
    } else if c == 'a' || c == 'A' {
        Some(10)
    } else if c == 'b' || c == 'B' {
        Some(11)
    } else if c == 'c' || c == 'C' {
        Some(12)
    } else if c == 'd' || c == 'D' {
        Some(13)
    } else if c == 'e' || c == 'E' {
        Some(14)
    } else if c == 'f' || c == 'F' {
        Some(15)
    } else {
        None
    }
}

fn simple_escape_exec(e: char) -> (r: Option<char>)
    ensures
        r == simple_escape(e),
{
    if e == '"' {
        Some('"')
    } else if e == '\\' {
        Some('\\')
    } else if e == '/' {
        Some('/')
    } else if e == 'b' {
        Some('\u{8}')
    } else if e == 'f' {
        Some('\u{c}')
    } else if e == 'n' {
        Some('\n')
    } else if e == 'r' {
        Some('\r')
    } else if e == 't' {
        Some('\t')
    } else {
        None
    }
}

fn skip_ws_exec<'a>(s: &'a str) -> (r: &'a str)
    ensures
        r@ == skip_ws(s@),
    decreases s@.len(),
{
    let n = s.unicode_len();
    if n > 0 {
        let c = s.get_char(0);
        if is_ws_exec(c) {
            let tail = s.substring_char(1, n);
            proof {
                assert(tail@ =~= s@.skip(1));
            }
            return skip_ws_exec(tail);
        }
    }
    s
}

fn expect_exec<'a>(s: &'a str, c: char) -> (r: Option<&'a str>)
    ensures
        match expect(s@, c) {
            Some(x) => r matches Some(t) && t@ == x,
            None => r is None,
        },
{
    let t = skip_ws_exec(s);
    let n = t.unicode_len();
    if n > 0 && t.get_char(0) == c {
        let rest = t.substring_char(1, n);
        proof {
            assert(rest@ =~= t@.skip(1));
        }
        Some(rest)
    } else {
        None
    }
}

fn expect_chars_exec<'a>(s: &'a str, key: &str) -> (r: Option<&'a str>)
    ensures
        match expect_chars(s@, key@) {
            Some(x) => r matches Some(t) && t@ == x,
            None => r is None,
        },
{
    let t = skip_ws_exec(s);
    let tn = t.unicode_len();
    let kn = key.unicode_len();
    if kn > tn {
        return None;
    }
    let mut i: usize = 0;
    while i < kn
        invariant
            0 <= i <= kn,
            kn == key@.len(),
            tn == t@.len(),
            kn <= tn,
            t@ == skip_ws(s@),
            forall|j: int| 0 <= j < i ==> t@[j] == key@[j],
        decreases kn - i,
    {
        if t.get_char(i) != key.get_char(i) {
            proof {
                assert(t@.take(kn as int)[i as int] != key@[i as int]);
            }
            return None;
        }
        i = i + 1;
    }
    proof {
        assert(t@.take(kn as int) =~= key@);
    }
    let rest = t.substring_char(kn, tn);
    proof {
        assert(rest@ =~= t@.skip(kn as int));
    }
    Some(rest)
}

fn parse_string_body_exec<'a>(s: &'a str) -> (r: Option<(Vec<char>, &'a str)>)
    ensures
        match parse_string_body(s@) {
            Some(p) => r matches Some(q) && q.0@ == p.0 && q.1@ == p.1,
            None => r is None,
        },
    decreases s@.len(),
{
    let n = s.unicode_len();
    if n == 0 {
        return None;
    }
    let c0 = s.get_char(0);
    if c0 == '"' {
        let rest = s.substring_char(1, n);
        proof {
            assert(rest@ =~= s@.skip(1));
        }
        Some((Vec::new(), rest))
    } else if c0 == '\\' {
        if n < 2 {
            return None;
        }
        let e = s.get_char(1);
        if e == 'u' {
            if n < 6 {
                return None;
            }
            let h0 = hex_val_exec(s.get_char(2));
            let h1 = hex_val_exec(s.get_char(3));
            let h2 = hex_val_exec(s.get_char(4));
            let h3 = hex_val_exec(s.get_char(5));
            match (h0, h1, h2, h3) {
                (Some(d0), Some(d1), Some(d2), Some(d3)) => {
                    let code: u32 = (d0 as u32) * 4096 + (d1 as u32) * 256 + (d2 as u32) * 16 + (
                    d3 as u32);
                    if code < 256 {
                        let tail = s.substring_char(6, n);
                        proof {
                            assert(tail@ =~= s@.skip(6));
                        }
                        match parse_string_body_exec(tail) {
                            Some(q) => {
                                let (mut t, rest) = q;
                                let ghost t0 = t@;
                                t.insert(0, (code as u8) as char);
                                proof {
                                    assert(t@ =~= seq![((code as u8) as char)] + t0);
                                }
                                Some((t, rest))
                            },
                            None => None,
                        }
                    } else {
                        None
                    }
                },
                _ => None,
            }
        } else {
            match simple_escape_exec(e) {
                Some(c) => {
                    let tail = s.substring_char(2, n);
                    proof {
                        assert(tail@ =~= s@.skip(2));
                    }
                    match parse_string_body_exec(tail) {
                        Some(q) => {
                            let (mut t, rest) = q;
                            let ghost t0 = t@;
                            t.insert(0, c);
                            proof {
                                assert(t@ =~= seq![c] + t0);
                            }
                            Some((t, rest))
                        },
                        None => None,
                    }
                },
                None => None,
            }
        }
    } else {
        let tail = s.substring_char(1, n);
        proof {
            assert(tail@ =~= s@.skip(1));
        }
        match parse_string_body_exec(tail) {
            Some(q) => {
                let (mut t, rest) = q;
                let ghost t0 = t@;
                t.insert(0, c0);
                proof {
                    assert(t@ =~= seq![c0] + t0);
                }
                Some((t, rest))
            },
            None => None,
        }
    }
}

fn parse_quoted_exec<'a>(s: &'a str) -> (r: Option<(String, &'a str)>)
    ensures
        match parse_quoted(s@) {
            Some(p) => r matches Some(q) && q.0@ == p.0 && q.1@ == p.1,
            None => r is None,
        },
{
    let t = skip_ws_exec(s);
    let n = t.unicode_len();
    if n > 0 && t.get_char(0) == '"' {
        let body = t.substring_char(1, n);
        proof {
            assert(body@ =~= t@.skip(1));
        }
        match parse_string_body_exec(body) {
            Some(q) => {
                let (chars, rest) = q;
                let text = crate::text::string_from_chars(&chars);
                Some((text, rest))
            },
            None => None,
        }
    } else {
        None
    }
}

fn parse_snippet_exec<'a>(s: &'a str) -> (r: Option<(Snippet, &'a str)>)
    ensures
        match parse_snippet(s@) {
            Some(p) => r matches Some(q) && q.0.deep_view() == p.0 && q.1@ == p.1,
            None => r is None,
        },
{
    let s1 = match expect_exec(s, '{') {
        Some(x) => x,
        None => {
            return None;
        },
    };
    let k1: &str = "\"title\"";
    proof {
        reveal_strlit("\"title\"");
        assert(k1@ =~= title_key());
    }
    let s2 = match expect_chars_exec(s1, k1) {
        Some(x) => x,
        None => {
            return None;
        },
    };
    let s3 = match expect_exec(s2, ':') {
        Some(x) => x,
        None => {
            return None;
        },
    };
    let (title, s4) = match parse_quoted_exec(s3) {
        Some(p) => p,
        None => {
            return None;
        },
    };
    let s5 = match expect_exec(s4, ',') {
        Some(x) => x,
        None => {
            return None;
        },
    };
    let k2: &str = "\"description\"";
    proof {
        reveal_strlit("\"description\"");
        assert(k2@ =~= description_key());
    }
    let s6 = match expect_chars_exec(s5, k2) {
        Some(x) => x,
        None => {
            return None;
        },
    };
    let s7 = match expect_exec(s6, ':') {
        Some(x) => x,
        None => {
            return None;
        },
    };
    let (description, s8) = match parse_quoted_exec(s7) {
        Some(p) => p,
        None => {
            return None;
        },
    };
    let s9 = match expect_exec(s8, '}') {
        Some(x) => x,
        None => {
            return None;
        },
    };
    Some((Snippet { title, description }, s9))
}

fn parse_items_exec<'a>(s: &'a str) -> (r: Option<(Vec<Snippet>, &'a str)>)
    ensures
        match parse_items(s@) {
            Some(p) => r matches Some(q) && q.0.deep_view() == p.0 && q.1@ == p.1,
            None => r is None,
        },
    decreases s@.len(),
{
    let q = match parse_snippet_exec(s) {
        Some(q) => q,
        None => {
            return None;
        },
    };
    let (m, r1) = q;
    let ghost mm = m.deep_view();
    let t = skip_ws_exec(r1);
    let n = t.unicode_len();
    if n > 0 {
        let c = t.get_char(0);
        if c == ',' {
            let tail = t.substring_char(1, n);
            proof {
                assert(tail@ =~= t@.skip(1));
                lemma_parse_snippet_len(s@);
                lemma_skip_ws_len(r1@);
            }
            match parse_items_exec(tail) {
                Some(p) => {
                    let (mut ms, r2) = p;
                    let ghost ms0 = ms.deep_view();
                    ms.insert(0, m);
                    proof {
                        assert(ms.deep_view() =~= seq![mm] + ms0);
                    }
                    Some((ms, r2))
                },
                None => None,
            }
        } else if c == ']' {
            let rest = t.substring_char(1, n);
            proof {
                assert(rest@ =~= t@.skip(1));
            }
            let mut ms: Vec<Snippet> = Vec::new();
            ms.push(m);
            proof {
                assert(ms.deep_view() =~= seq![mm]);
            }
            Some((ms, rest))
        } else {
            None
        }
    } else {
        None
    }
}

/// Parses the persisted JSON text into a snippet list; `None` when the text
/// is not a well-formed snippet array.
pub fn parse_snippets(s: &str) -> (r: Option<Vec<Snippet>>)
    ensures
        match parse_snippet_list(s@) {
            Some(l) => r matches Some(v) && v.deep_view() == l,
            None => r is None,
        },
{
    let s1 = match expect_exec(s, '[') {
        Some(x) => x,
        None => {
            return None;
        },
    };
    let t = skip_ws_exec(s1);
    let n = t.unicode_len();
    if n > 0 && t.get_char(0) == ']' {
        let after = t.substring_char(1, n);
        proof {
            assert(after@ =~= t@.skip(1));
        }
        let fin = skip_ws_exec(after);
        if fin.unicode_len() == 0 {
            let v: Vec<Snippet> = Vec::new();
            proof {
                assert(v.deep_view() =~= Seq::<SnippetModel>::empty());
            }
            Some(v)
        } else {
            None
        }
    } else {
        match parse_items_exec(s1) {
            Some(p) => {
                let (ms, r1) = p;
                let fin = skip_ws_exec(r1);
                if fin.unicode_len() == 0 {
                    Some(ms)
                } else {
                    None
                }
            },
            None => None,
        }
    }
}

/// What a load yields given the raw file contents, if there were any: the
/// parsed list, or the empty list for missing or malformed content.
pub open spec fn loaded_model(contents: Option<Seq<char>>) -> Seq<SnippetModel> {
    match contents {
        None => Seq::empty(),
        Some(s) => match parse_snippet_list(s) {
            None => Seq::empty(),
            Some(l) => l,
        },
    }
}

/// Turns the raw contents of the persisted file into the snippet list to
/// start from.  Every failure path — no readable file, malformed JSON —
/// degrades to the empty list; this function itself never fails.
pub fn load_snippets(contents: Option<&str>) -> (r: Vec<Snippet>)
    ensures
        contents matches Some(s) ==> r.deep_view() == loaded_model(Some(s@)),
        contents is None ==> r.deep_view() == loaded_model(None::<Seq<char>>),
{
    match contents {
        None => {
            let v: Vec<Snippet> = Vec::new();
            proof {
                assert(v.deep_view() =~= Seq::<SnippetModel>::empty());
            }
            v
        },
        Some(s) => match parse_snippets(s) {
            Some(v) => v,
            None => {
                let v: Vec<Snippet> = Vec::new();
                proof {
                    assert(v.deep_view() =~= Seq::<SnippetModel>::empty());
                }
                v
            },
        },
    }
}

} // verus!
