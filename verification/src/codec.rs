//! The wire codec: every frame that crosses the duplex channel is a JSON
//! object `{"type": <tag>, "payload": <object>}`. Server frames are encoded
//! here, client frames are decoded here; the grammar is stated by spec
//! functions and the executable code is proved against them.

use vstd::prelude::*;
use crate::messages::{ClientFrame, ClientMessage};

verus! {

// ---------------------------------------------------------------------------
// String escaping (server -> client direction)
// ---------------------------------------------------------------------------

/// The lower-case hexadecimal digit for a value below sixteen.
pub open spec fn hex_char(d: int) -> char {
    if d == 0 { '0' }
    else if d == 1 { '1' }
    else if d == 2 { '2' }
    else if d == 3 { '3' }
    else if d == 4 { '4' }
    else if d == 5 { '5' }
    else if d == 6 { '6' }
    else if d == 7 { '7' }
    else if d == 8 { '8' }
    else if d == 9 { '9' }
    else if d == 10 { 'a' }
    else if d == 11 { 'b' }
    else if d == 12 { 'c' }
    else if d == 13 { 'd' }
    else if d == 14 { 'e' }
    else { 'f' }
}

/// How one character appears inside a JSON string literal: quotes and
/// backslashes are escaped, the five control characters with short forms use
/// them, any other control character uses a `\u00xx` escape, and everything
/// else stands for itself.
pub open spec fn escape_char(c: char) -> Seq<char> {
    if c == '"' { seq!['\\', '"'] }
    else if c == '\\' { seq!['\\', '\\'] }
    else if c == '\u{8}' { seq!['\\', 'b'] }
    else if c == '\t' { seq!['\\', 't'] }
    else if c == '\n' { seq!['\\', 'n'] }
    else if c == '\u{c}' { seq!['\\', 'f'] }
    else if c == '\r' { seq!['\\', 'r'] }
    else if (c as int) < 0x20 {
        seq!['\\', 'u', '0', '0', hex_char(c as int / 16), hex_char(c as int % 16)]
    }
    else { seq![c] }
}

/// A whole character sequence, escaped for use inside a JSON string literal.
pub open spec fn json_escaped(s: Seq<char>) -> Seq<char>
    decreases s.len(),
{
    if s.len() == 0 { Seq::empty() } else { escape_char(s[0]) + json_escaped(s.drop_first()) }
}

proof fn lemma_json_escaped_step(s: Seq<char>, i: int)
    requires
        0 <= i < s.len(),
    ensures
        json_escaped(s.take(i + 1)) == json_escaped(s.take(i)) + escape_char(s[i]),
    decreases i,
{
    let a = s.take(i + 1);
    let b = s.take(i);
    if i == 0 {
        assert(a =~= seq![s[0]]);
        assert(a.drop_first() =~= Seq::<char>::empty());
        assert(b =~= Seq::<char>::empty());
        assert(json_escaped(b) + escape_char(s[0]) =~= escape_char(s[0]));
        assert(escape_char(a[0]) + json_escaped(a.drop_first()) =~= escape_char(s[0]));
    } else {
        lemma_json_escaped_step(s.drop_first(), i - 1);
        assert(a.drop_first() =~= s.drop_first().take(i));
        assert(b.drop_first() =~= s.drop_first().take(i - 1));
        assert(s.drop_first()[i - 1] == s[i]);
        assert(a[0] == s[0] && b[0] == s[0]);
        assert(json_escaped(a) == escape_char(s[0]) + json_escaped(s.drop_first().take(i)));
        assert(json_escaped(s.drop_first().take(i))
            == json_escaped(s.drop_first().take(i - 1)) + escape_char(s[i]));
        assert((escape_char(s[0]) + json_escaped(s.drop_first().take(i - 1))) + escape_char(s[i])
            =~= escape_char(s[0]) + (json_escaped(s.drop_first().take(i - 1)) + escape_char(s[i])));
        assert(json_escaped(b) == escape_char(s[0]) + json_escaped(s.drop_first().take(i - 1)));
    }
}

/// Relies on `String::push`: appends the character to the end of the string.
#[verifier::external_body]
fn push_char(s: &mut String, c: char)
    ensures
        final(s)@ == old(s)@.push(c),
{
    s.push(c);
}

fn hex_char_exec(d: u8) -> (r: char)
    requires
        d < 16,
    ensures
        r == hex_char(d as int),
{
    match d {
        0 => '0',
        1 => '1',
        2 => '2',
        3 => '3',
        4 => '4',
        5 => '5',
        6 => '6',
        7 => '7',
        8 => '8',
        9 => '9',
        10 => 'a',
        11 => 'b',
        12 => 'c',
        13 => 'd',
        14 => 'e',
        _ => 'f',
    }
}

fn append_escape_char(out: &mut String, c: char)
    ensures
        final(out)@ == old(out)@ + escape_char(c),
{
    if c == '"' {
        push_char(out, '\\');
        push_char(out, '"');
        proof {
            assert(old(out)@.push('\\').push('"') =~= old(out)@ + escape_char(c));
        }
    } else if c == '\\' {
        push_char(out, '\\');
        push_char(out, '\\');
        proof {
            assert(old(out)@.push('\\').push('\\') =~= old(out)@ + escape_char(c));
        }
    } else if c == '\u{8}' {
        push_char(out, '\\');
        push_char(out, 'b');
        proof {
            assert(old(out)@.push('\\').push('b') =~= old(out)@ + escape_char(c));
        }
    } else if c == '\t' {
        push_char(out, '\\');
        push_char(out, 't');
        proof {
            assert(old(out)@.push('\\').push('t') =~= old(out)@ + escape_char(c));
        }
    } else if c == '\n' {
        push_char(out, '\\');
        push_char(out, 'n');
        proof {
            assert(old(out)@.push('\\').push('n') =~= old(out)@ + escape_char(c));
        }
    } else if c == '\u{c}' {
        push_char(out, '\\');
        push_char(out, 'f');
        proof {
            assert(old(out)@.push('\\').push('f') =~= old(out)@ + escape_char(c));
        }
    } else if c == '\r' {
        push_char(out, '\\');
        push_char(out, 'r');
        proof {
            assert(old(out)@.push('\\').push('r') =~= old(out)@ + escape_char(c));
        }
    } else if (c as u32) < 0x20 {
        let v = c as u32;
        push_char(out, '\\');
        push_char(out, 'u');
        push_char(out, '0');
        push_char(out, '0');
        let d1 = hex_char_exec((v / 16) as u8);
        let d2 = hex_char_exec((v % 16) as u8);
        push_char(out, d1);
        push_char(out, d2);
        proof {
            assert(v as int == c as int);
            assert(old(out)@.push('\\').push('u').push('0').push('0').push(d1).push(d2)
                =~= old(out)@ + escape_char(c));
        }
    } else {
        push_char(out, c);
        proof {
            assert(old(out)@.push(c) =~= old(out)@ + escape_char(c));
        }
    }
}

/// Appends the escaped form of `s` to `out`.
fn append_escaped(out: &mut String, s: &str)
    ensures
        final(out)@ == old(out)@ + json_escaped(s@),
{
    let n = s.unicode_len();
    let mut i: usize = 0;
    while i < n
        invariant
            i <= n,
            n == s@.len(),
            out@ == old(out)@ + json_escaped(s@.take(i as int)),
        decreases n - i,
    {
        let c = s.get_char(i);
        append_escape_char(out, c);
        proof {
            lemma_json_escaped_step(s@, i as int);
            assert((old(out)@ + json_escaped(s@.take(i as int))) + escape_char(s@[i as int])
                =~= old(out)@ + (json_escaped(s@.take(i as int)) + escape_char(s@[i as int])));
        }
        i = i + 1;
    }
    proof {
        assert(s@.take(n as int) =~= s@);
    }
}

// ---------------------------------------------------------------------------
// Server frames
// ---------------------------------------------------------------------------

/// The frame acknowledging a successful authentication.
pub open spec fn auth_ok_frame() -> Seq<char> {
    "{\"type\":\"auth_ok\",\"payload\":{}}"@
}

/// The frame reporting a protocol error with the given message.
pub open spec fn error_frame(msg: Seq<char>) -> Seq<char> {
    "{\"type\":\"error\",\"payload\":{\"msg\":\""@ + json_escaped(msg) + "\"}}"@
}

/// The frame telling a sender that the named user has no directory entry.
pub open spec fn offline_frame(user: Seq<char>) -> Seq<char> {
    "{\"type\":\"error\",\"payload\":{\"msg\":\"user_offline\",\"user\":\""@
        + json_escaped(user) + "\"}}"@
}

/// The frame delivering a routed message to its recipient.
pub open spec fn text_frame(from: Seq<char>, text: Seq<char>) -> Seq<char> {
    "{\"type\":\"text\",\"payload\":{\"from\":\""@ + json_escaped(from) + "\",\"text\":\""@
        + json_escaped(text) + "\"}}"@
}

pub fn encode_auth_ok() -> (r: String)
    ensures
        r@ == auth_ok_frame(),
{
    String::from_str("{\"type\":\"auth_ok\",\"payload\":{}}")
}

pub fn encode_error(msg: &str) -> (r: String)
    ensures
        r@ == error_frame(msg@),
{
    let mut out = String::from_str("{\"type\":\"error\",\"payload\":{\"msg\":\"");
    append_escaped(&mut out, msg);
    out.append("\"}}");
    proof {
        assert(("{\"type\":\"error\",\"payload\":{\"msg\":\""@ + json_escaped(msg@)) + "\"}}"@
            =~= error_frame(msg@));
    }
    out
}

pub fn encode_offline_error(user: &str) -> (r: String)
    ensures
        r@ == offline_frame(user@),
{
    let mut out = String::from_str("{\"type\":\"error\",\"payload\":{\"msg\":\"user_offline\",\"user\":\"");
    append_escaped(&mut out, user);
    out.append("\"}}");
    proof {
        assert(("{\"type\":\"error\",\"payload\":{\"msg\":\"user_offline\",\"user\":\""@
            + json_escaped(user@)) + "\"}}"@ =~= offline_frame(user@));
    }
    out
}

// ---------------------------------------------------------------------------
// Client frames: the grammar
// ---------------------------------------------------------------------------
//
// A client frame is one JSON object, `{"type": <tag>, "payload": <object>}`,
// with the fields in that order, arbitrary whitespace between tokens, and
// nothing but whitespace after the closing brace. Strings accept the short
// escapes and `\uXXXX` for a scalar value; unescaped control characters,
// lone surrogates and anything outside this shape are parse errors.

/// A character is JSON whitespace.
pub open spec fn is_json_ws(c: char) -> bool {
    c == ' ' || c == '\t' || c == '\n' || c == '\r'
}

/// The first position at or after `i` holding no whitespace.
pub open spec fn spec_skip_ws(s: Seq<char>, i: int) -> int
    decreases s.len() - i,
{
    if 0 <= i < s.len() && is_json_ws(s[i]) { spec_skip_ws(s, i + 1) } else { i }
}

/// The character a short escape stands for, if the character after the
/// backslash is one of the eight short escapes.
pub open spec fn simple_unescape(c: char) -> Option<char> {
    if c == '"' { Some('"') }
    else if c == '\\' { Some('\\') }
    else if c == '/' { Some('/') }
    else if c == 'b' { Some('\u{8}') }
    else if c == 'f' { Some('\u{c}') }
    else if c == 'n' { Some('\n') }
    else if c == 'r' { Some('\r') }
    else if c == 't' { Some('\t') }
    else { None }
}

/// The value of a hexadecimal digit, or a negative number for any other
/// character.
pub open spec fn hex_val(c: char) -> int {
    if '0' as u32 <= c as u32 && c as u32 <= '9' as u32 { c as u32 - '0' as u32 }
    else if 'a' as u32 <= c as u32 && c as u32 <= 'f' as u32 { c as u32 - 'a' as u32 + 10 }
    else if 'A' as u32 <= c as u32 && c as u32 <= 'F' as u32 { c as u32 - 'A' as u32 + 10 }
    else { -1 }
}

/// The value is a Unicode scalar value, so a `char` can hold it.
pub open spec fn is_scalar_value(v: int) -> bool {
    (0 <= v && v < 0xD800) || (0xE000 <= v && v <= 0x10FFFF)
}

/// The content and end of a JSON string whose opening quote stands just
/// before `i`: the decoded characters up to the closing quote, and the
/// position after that quote.
pub open spec fn spec_string_body(s: Seq<char>, i: int) -> Option<(Seq<char>, int)>
    decreases s.len() - i,
{
    if !(0 <= i < s.len()) { None }
    else if s[i] == '"' { Some((Seq::empty(), i + 1)) }
    else if s[i] == '\\' {
        if i + 1 < s.len() {
            let e = s[i + 1];
            if e == 'u' {
                if i + 6 <= s.len() && hex_val(s[i + 2]) >= 0 && hex_val(s[i + 3]) >= 0
                    && hex_val(s[i + 4]) >= 0 && hex_val(s[i + 5]) >= 0 {
                    let v = hex_val(s[i + 2]) * 4096 + hex_val(s[i + 3]) * 256
                        + hex_val(s[i + 4]) * 16 + hex_val(s[i + 5]);
                    if is_scalar_value(v) {
                        match spec_string_body(s, i + 6) {
                            Some(p) => Some((seq![(v as u32) as char] + p.0, p.1)),
                            None => None,
                        }
                    } else { None }
                } else { None }
            } else {
                match simple_unescape(e) {
                    Some(c) => match spec_string_body(s, i + 2) {
                        Some(p) => Some((seq![c] + p.0, p.1)),
                        None => None,
                    },
                    None => None,
                }
            }
        } else { None }
    }
    else if (s[i] as u32) < 0x20 { None }
    else {
        match spec_string_body(s, i + 1) {
            Some(p) => Some((seq![s[i]] + p.0, p.1)),
            None => None,
        }
    }
}

/// A JSON string starting (with its opening quote) at `i`.
pub open spec fn spec_string(s: Seq<char>, i: int) -> Option<(Seq<char>, int)> {
    if 0 <= i < s.len() && s[i] == '"' { spec_string_body(s, i + 1) } else { None }
}

/// Whitespace and then the single character `c`: the position after `c`.
pub open spec fn spec_punct(s: Seq<char>, i: int, c: char) -> Option<int> {
    let j = spec_skip_ws(s, i);
    if j < s.len() && s[j] == c { Some(j + 1) } else { None }
}

/// The authentication payload object `{"token": <string>}` starting at `i`
/// (after whitespace): the token and the position after the closing brace.
pub open spec fn spec_auth_payload(s: Seq<char>, i: int) -> Option<(Seq<char>, int)> {
    match spec_punct(s, i, '{') {
        Some(j1) => match spec_string(s, spec_skip_ws(s, j1)) {
            Some((key, j2)) => if key == "token"@ {
                match spec_punct(s, j2, ':') {
                    Some(j3) => match spec_string(s, spec_skip_ws(s, j3)) {
                        Some((tok, j4)) => match spec_punct(s, j4, '}') {
                            Some(j5) => Some((tok, j5)),
                            None => None,
                        },
                        None => None,
                    },
                    None => None,
                }
            } else { None },
            None => None,
        },
        None => None,
    }
}

/// The text payload object `{"to": <string>, "text": <string>}` starting at
/// `i` (after whitespace): both fields and the position after the closing
/// brace.
pub open spec fn spec_text_payload(s: Seq<char>, i: int) -> Option<((Seq<char>, Seq<char>), int)> {
    match spec_punct(s, i, '{') {
        Some(j1) => match spec_string(s, spec_skip_ws(s, j1)) {
            Some((key1, j2)) => if key1 == "to"@ {
                match spec_punct(s, j2, ':') {
                    Some(j3) => match spec_string(s, spec_skip_ws(s, j3)) {
                        Some((to, j4)) => match spec_punct(s, j4, ',') {
                            Some(j5) => match spec_string(s, spec_skip_ws(s, j5)) {
                                Some((key2, j6)) => if key2 == "text"@ {
                                    match spec_punct(s, j6, ':') {
                                        Some(j7) => match spec_string(s, spec_skip_ws(s, j7)) {
                                            Some((text, j8)) => match spec_punct(s, j8, '}') {
                                                Some(j9) => Some(((to, text), j9)),
                                                None => None,
                                            },
                                            None => None,
                                        },
                                        None => None,
                                    }
                                } else { None },
                                None => None,
                            },
                            None => None,
                        },
                        None => None,
                    },
                    None => None,
                }
            } else { None },
            None => None,
        },
        None => None,
    }
}

/// The frame a whole input stands for, if it is one valid client frame.
pub open spec fn spec_client_frame(s: Seq<char>) -> Option<ClientFrame> {
    match spec_punct(s, 0, '{') {
        Some(j1) => match spec_string(s, spec_skip_ws(s, j1)) {
            Some((key1, j2)) => if key1 == "type"@ {
                match spec_punct(s, j2, ':') {
                    Some(j3) => match spec_string(s, spec_skip_ws(s, j3)) {
                        Some((tag, j4)) => match spec_punct(s, j4, ',') {
                            Some(j5) => match spec_string(s, spec_skip_ws(s, j5)) {
                                Some((key2, j6)) => if key2 == "payload"@ {
                                    match spec_punct(s, j6, ':') {
                                        Some(j7) => if tag == "auth"@ {
                                            match spec_auth_payload(s, j7) {
                                                Some((tok, j8)) => match spec_punct(s, j8, '}') {
                                                    Some(j9) => if spec_skip_ws(s, j9) == s.len() {
                                                        Some(ClientFrame::Auth { token: tok })
                                                    } else { None },
                                                    None => None,
                                                },
                                                None => None,
                                            }
                                        } else if tag == "text"@ {
                                            match spec_text_payload(s, j7) {
                                                Some(((to, text), j8)) => match spec_punct(s, j8, '}') {
                                                    Some(j9) => if spec_skip_ws(s, j9) == s.len() {
                                                        Some(ClientFrame::Text { to: to, text: text })
                                                    } else { None },
                                                    None => None,
                                                },
                                                None => None,
                                            }
                                        } else { None },
                                        None => None,
                                    }
                                } else { None },
                                None => None,
                            },
                            None => None,
                        },
                        None => None,
                    },
                    None => None,
                }
            } else { None },
            None => None,
        },
        None => None,
    }
}

// ---------------------------------------------------------------------------
// Client frames: the parser
// ---------------------------------------------------------------------------

/// Relies on `char::from_u32`: succeeds exactly on Unicode scalar values,
/// and the character it returns casts back to the same number.
#[verifier::external_body]
fn char_from_u32(v: u32) -> (r: Option<char>)
    ensures
        r is Some <==> is_scalar_value(v as int),
        r matches Some(c) ==> c as u32 == v,
{
    char::from_u32(v)
}

/// The input's characters, one by one.
fn str_chars(s: &str) -> (v: Vec<char>)
    ensures
        v@ == s@,
{
    let n = s.unicode_len();
    let mut v: Vec<char> = Vec::new();
    let mut i: usize = 0;
    while i < n
        invariant
            i <= n,
            n == s@.len(),
            v@ == s@.take(i as int),
        decreases n - i,
    {
        let c = s.get_char(i);
        v.push(c);
        proof {
            assert(s@.take(i + 1) =~= s@.take(i as int).push(s@[i as int]));
        }
        i = i + 1;
    }
    proof {
        assert(s@.take(n as int) =~= s@);
    }
    v
}

fn skip_ws(v: &Vec<char>, i: usize) -> (r: usize)
    requires
        i <= v@.len(),
    ensures
        r == spec_skip_ws(v@, i as int),
        i <= r <= v@.len(),
{
    let mut j = i;
    while j < v.len() && (v[j] == ' ' || v[j] == '\t' || v[j] == '\n' || v[j] == '\r')
        invariant
            i <= j <= v@.len(),
            spec_skip_ws(v@, i as int) == spec_skip_ws(v@, j as int),
        decreases v@.len() - j,
    {
        j = j + 1;
    }
    j
}

fn hex_digit(c: char) -> (r: Option<u8>)
    ensures
        r matches Some(d) ==> d < 16 && hex_val(c) == d as int,
        r is None ==> hex_val(c) < 0,
{
    let v: u32 = c as u32;
    if 0x30 <= v && v <= 0x39 {
        Some((v - 0x30) as u8)
    } else if 0x61 <= v && v <= 0x66 {
        Some((v - 0x61 + 10) as u8)
    } else if 0x41 <= v && v <= 0x46 {
        Some((v - 0x41 + 10) as u8)
    } else {
        None
    }
}

fn unescape_simple(c: char) -> (r: Option<char>)
    ensures
        r == simple_unescape(c),
{
    if c == '"' { Some('"') }
    else if c == '\\' { Some('\\') }
    else if c == '/' { Some('/') }
    else if c == 'b' { Some('\u{8}') }
    else if c == 'f' { Some('\u{c}') }
    else if c == 'n' { Some('\n') }
    else if c == 'r' { Some('\r') }
    else if c == 't' { Some('\t') }
    else { None }
}

/// Parses the JSON string whose opening quote stands at `i`.
fn parse_string(v: &Vec<char>, i: usize) -> (r: Option<(String, usize)>)
    requires
        i <= v@.len(),
    ensures
        r matches Some(p) ==> spec_string(v@, i as int) == Some::<(Seq<char>, int)>(
            (p.0@, p.1 as int),
        ) && i < p.1 <= v@.len(),
        r is None ==> spec_string(v@, i as int) is None,
{
    if i >= v.len() || v[i] != '"' {
        return None;
    }
    let mut out = String::new();
    let mut j = i + 1;
    loop
        invariant
            i + 1 <= j <= v@.len(),
            i < v@.len() && v@[i as int] == '"',
            spec_string_body(v@, i + 1) == (match spec_string_body(v@, j as int) {
                Some(p) => Some::<(Seq<char>, int)>((out@ + p.0, p.1)),
                None => None::<(Seq<char>, int)>,
            }),
        decreases v@.len() - j,
    {
        if j >= v.len() {
            proof {
                assert(spec_string_body(v@, j as int) is None);
            }
            return None;
        }
        let c = v[j];
        if c == '"' {
            proof {
                assert(spec_string_body(v@, j as int) == Some::<(Seq<char>, int)>(
                    (Seq::empty(), j + 1),
                ));
                assert(out@ + Seq::<char>::empty() =~= out@);
            }
            return Some((out, j + 1));
        } else if c == '\\' {
            if j + 1 >= v.len() {
                proof {
                    assert(spec_string_body(v@, j as int) is None);
                }
                return None;
            }
            let e = v[j + 1];
            if e == 'u' {
                if v.len() - j < 6 {
                    proof {
                        assert(spec_string_body(v@, j as int) is None);
                    }
                    return None;
                }
                let d2 = hex_digit(v[j + 2]);
                let d3 = hex_digit(v[j + 3]);
                let d4 = hex_digit(v[j + 4]);
                let d5 = hex_digit(v[j + 5]);
                match (d2, d3, d4, d5) {
                    (Some(h2), Some(h3), Some(h4), Some(h5)) => {
                        let val: u32 = (h2 as u32) * 4096 + (h3 as u32) * 256 + (h4 as u32) * 16
                            + (h5 as u32);
                        proof {
                            assert(val as int == hex_val(v@[j + 2]) * 4096 + hex_val(v@[j + 3])
                                * 256 + hex_val(v@[j + 4]) * 16 + hex_val(v@[j + 5]));
                        }
                        match char_from_u32(val) {
                            Some(c2) => {
                                proof {
                                    vstd::utf8::char_u32_cast(c2, val);
                                    assert(((val as int) as u32) as char == c2);
                                    let rest = spec_string_body(v@, j + 6);
                                    assert(spec_string_body(v@, j as int) == (match rest {
                                        Some(p) => Some::<(Seq<char>, int)>((seq![c2] + p.0, p.1)),
                                        None => None::<(Seq<char>, int)>,
                                    }));
                                    if rest is Some {
                                        assert(out@.push(c2) + rest.unwrap().0 =~= out@ + (seq![
                                            c2,
                                        ] + rest.unwrap().0));
                                    }
                                }
                                push_char(&mut out, c2);
                                j = j + 6;
                            },
                            None => {
                                proof {
                                    assert(spec_string_body(v@, j as int) is None);
                                }
                                return None;
                            },
                        }
                    },
                    _ => {
                        proof {
                            assert(spec_string_body(v@, j as int) is None);
                        }
                        return None;
                    },
                }
            } else {
                match unescape_simple(e) {
                    Some(c2) => {
                        proof {
                            let rest = spec_string_body(v@, j + 2);
                            assert(spec_string_body(v@, j as int) == (match rest {
                                Some(p) => Some::<(Seq<char>, int)>((seq![c2] + p.0, p.1)),
                                None => None::<(Seq<char>, int)>,
                            }));
                            if rest is Some {
                                assert(out@.push(c2) + rest.unwrap().0 =~= out@ + (seq![c2]
                                    + rest.unwrap().0));
                            }
                        }
                        push_char(&mut out, c2);
                        j = j + 2;
                    },
                    None => {
                        proof {
                            assert(spec_string_body(v@, j as int) is None);
                        }
                        return None;
                    },
                }
            }
        } else if (c as u32) < 0x20 {
            proof {
                assert(spec_string_body(v@, j as int) is None);
            }
            return None;
        } else {
            proof {
                let rest = spec_string_body(v@, j + 1);
                assert(spec_string_body(v@, j as int) == (match rest {
                    Some(p) => Some::<(Seq<char>, int)>((seq![c] + p.0, p.1)),
                    None => None::<(Seq<char>, int)>,
                }));
                if rest is Some {
                    assert(out@.push(c) + rest.unwrap().0 =~= out@ + (seq![c] + rest.unwrap().0));
                }
            }
            push_char(&mut out, c);
            j = j + 1;
        }
    }
}

/// Skips whitespace and then expects exactly the character `c`.
fn punct(v: &Vec<char>, i: usize, c: char) -> (r: Option<usize>)
    requires
        i <= v@.len(),
    ensures
        r matches Some(j) ==> spec_punct(v@, i as int, c) == Some(j as int) && i < j <= v@.len(),
        r is None ==> spec_punct(v@, i as int, c) is None,
{
    let j = skip_ws(v, i);
    if j < v.len() && v[j] == c {
        Some(j + 1)
    } else {
        None
    }
}

/// The parsed string equals the given literal.
fn string_eq_lit(a: &String, lit: &str) -> (r: bool)
    ensures
        r == (a@ == lit@),
{
    let b = lit.to_owned();
    a.eq(&b)
}

/// Parses the authentication payload object `{"token": <string>}`.
fn parse_auth_payload(v: &Vec<char>, i: usize) -> (r: Option<(String, usize)>)
    requires
        i <= v@.len(),
    ensures
        r matches Some(p) ==> spec_auth_payload(v@, i as int) == Some::<(Seq<char>, int)>(
            (p.0@, p.1 as int),
        ) && p.1 <= v@.len(),
        r is None ==> spec_auth_payload(v@, i as int) is None,
{
    let j1 = match punct(v, i, '{') {
        Some(j) => j,
        None => { return None; },
    };
    let (key, j2) = match parse_string(v, skip_ws(v, j1)) {
        Some(p) => p,
        None => { return None; },
    };
    if !string_eq_lit(&key, "token") {
        return None;
    }
    let j3 = match punct(v, j2, ':') {
        Some(j) => j,
        None => { return None; },
    };
    let (tok, j4) = match parse_string(v, skip_ws(v, j3)) {
        Some(p) => p,
        None => { return None; },
    };
    let j5 = match punct(v, j4, '}') {
        Some(j) => j,
        None => { return None; },
    };
    Some((tok, j5))
}

/// Parses the text payload object `{"to": <string>, "text": <string>}`.
fn parse_text_payload(v: &Vec<char>, i: usize) -> (r: Option<((String, String), usize)>)
    requires
        i <= v@.len(),
    ensures
        r matches Some(p) ==> spec_text_payload(v@, i as int) == Some::<
            ((Seq<char>, Seq<char>), int),
        >(((p.0.0@, p.0.1@), p.1 as int)) && p.1 <= v@.len(),
        r is None ==> spec_text_payload(v@, i as int) is None,
{
    let j1 = match punct(v, i, '{') {
        Some(j) => j,
        None => { return None; },
    };
    let (key1, j2) = match parse_string(v, skip_ws(v, j1)) {
        Some(p) => p,
        None => { return None; },
    };
    if !string_eq_lit(&key1, "to") {
        return None;
    }
    let j3 = match punct(v, j2, ':') {
        Some(j) => j,
        None => { return None; },
    };
    let (to, j4) = match parse_string(v, skip_ws(v, j3)) {
        Some(p) => p,
        None => { return None; },
    };
    let j5 = match punct(v, j4, ',') {
        Some(j) => j,
        None => { return None; },
    };
    let (key2, j6) = match parse_string(v, skip_ws(v, j5)) {
        Some(p) => p,
        None => { return None; },
    };
    if !string_eq_lit(&key2, "text") {
        return None;
    }
    let j7 = match punct(v, j6, ':') {
        Some(j) => j,
        None => { return None; },
    };
    let (text, j8) = match parse_string(v, skip_ws(v, j7)) {
        Some(p) => p,
        None => { return None; },
    };
    let j9 = match punct(v, j8, '}') {
        Some(j) => j,
        None => { return None; },
    };
    Some(((to, text), j9))
}

/// Decodes one client frame, or nothing if the input is not a valid frame.
pub fn parse_client_message(text: &str) -> (r: Option<ClientMessage>)
    ensures
        match r {
            Some(ClientMessage::Auth { token }) => spec_client_frame(text@) == Some(
                ClientFrame::Auth { token: token@ },
            ),
            Some(ClientMessage::Text { to, text: body }) => spec_client_frame(text@) == Some(
                ClientFrame::Text { to: to@, text: body@ },
            ),
            None => spec_client_frame(text@) is None,
        },
{
    let v = str_chars(text);
    let j1 = match punct(&v, 0, '{') {
        Some(j) => j,
        None => { return None; },
    };
    let (key1, j2) = match parse_string(&v, skip_ws(&v, j1)) {
        Some(p) => p,
        None => { return None; },
    };
    if !string_eq_lit(&key1, "type") {
        return None;
    }
    let j3 = match punct(&v, j2, ':') {
        Some(j) => j,
        None => { return None; },
    };
    let (tag, j4) = match parse_string(&v, skip_ws(&v, j3)) {
        Some(p) => p,
        None => { return None; },
    };
    let j5 = match punct(&v, j4, ',') {
        Some(j) => j,
        None => { return None; },
    };
    let (key2, j6) = match parse_string(&v, skip_ws(&v, j5)) {
        Some(p) => p,
        None => { return None; },
    };
    if !string_eq_lit(&key2, "payload") {
        return None;
    }
    let j7 = match punct(&v, j6, ':') {
        Some(j) => j,
        None => { return None; },
    };
    if string_eq_lit(&tag, "auth") {
        let (tok, j8) = match parse_auth_payload(&v, j7) {
            Some(p) => p,
            None => { return None; },
        };
        let j9 = match punct(&v, j8, '}') {
            Some(j) => j,
            None => { return None; },
        };
        if skip_ws(&v, j9) == v.len() {
            Some(ClientMessage::Auth { token: tok })
        } else {
            None
        }
    } else if string_eq_lit(&tag, "text") {
        let (pair, j8) = match parse_text_payload(&v, j7) {
            Some(p) => p,
            None => { return None; },
        };
        let j9 = match punct(&v, j8, '}') {
            Some(j) => j,
            None => { return None; },
        };
        if skip_ws(&v, j9) == v.len() {
            let (to, body) = pair;
            Some(ClientMessage::Text { to: to, text: body })
        } else {
            None
        }
    } else {
        None
    }
}

pub fn encode_text(from: &str, text: &str) -> (r: String)
    ensures
        r@ == text_frame(from@, text@),
{
    let mut out = String::from_str("{\"type\":\"text\",\"payload\":{\"from\":\"");
    append_escaped(&mut out, from);
    out.append("\",\"text\":\"");
    append_escaped(&mut out, text);
    out.append("\"}}");
    proof {
        assert(((("{\"type\":\"text\",\"payload\":{\"from\":\""@ + json_escaped(from@))
            + "\",\"text\":\""@) + json_escaped(text@)) + "\"}}"@
            =~= text_frame(from@, text@));
    }
    out
}

} // verus!
