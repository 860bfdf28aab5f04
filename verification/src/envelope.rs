//! The result envelope: a two-variant tagged value with a canonical JSON
//! encoding, `{"ok":<string>}` on success and `{"err":<string>}` on failure.
//! The payload is always encoded as a JSON string literal, with the same
//! escaping rules a standard compact JSON serializer uses: `"` and `\` get a
//! backslash escape, the five named control characters get their short forms,
//! every other control character below U+0020 becomes `\u00xx` with lowercase
//! hex digits, and everything else is copied unchanged.

use vstd::prelude::*;
use vstd::string::StrSliceExecFns;

verus! {

/// One hexadecimal digit, lowercase.
pub open spec fn hex_digit(n: u32) -> char {
    if n == 0 {
        '0'
    } else if n == 1 {
        '1'
    } else if n == 2 {
        '2'
    } else if n == 3 {
        '3'
    } else if n == 4 {
        '4'
    } else if n == 5 {
        '5'
    } else if n == 6 {
        '6'
    } else if n == 7 {
        '7'
    } else if n == 8 {
        '8'
    } else if n == 9 {
        '9'
    } else if n == 10 {
        'a'
    } else if n == 11 {
        'b'
    } else if n == 12 {
        'c'
    } else if n == 13 {
        'd'
    } else if n == 14 {
        'e'
    } else {
        'f'
    }
}

/// How one character appears inside a JSON string literal.
pub open spec fn escaped_char(c: char) -> Seq<char> {
    if c == '"' {
        seq!['\\', '"']
    } else if c == '\\' {
        seq!['\\', '\\']
    } else if c == '\u{0008}' {
        seq!['\\', 'b']
    } else if c == '\u{0009}' {
        seq!['\\', 't']
    } else if c == '\u{000A}' {
        seq!['\\', 'n']
    } else if c == '\u{000C}' {
        seq!['\\', 'f']
    } else if c == '\u{000D}' {
        seq!['\\', 'r']
    } else if (c as u32) < 0x20 {
        seq!['\\', 'u', '0', '0', hex_digit((c as u32) / 16), hex_digit((c as u32) % 16)]
    } else {
        seq![c]
    }
}

/// The body of the JSON string literal that encodes `s`.
pub open spec fn json_escaped(s: Seq<char>) -> Seq<char>
    decreases s.len(),
{
    if s.len() == 0 {
        Seq::empty()
    } else {
        escaped_char(s[0]) + json_escaped(s.skip(1))
    }
}

/// The full JSON string literal that encodes `s`, quotes included.
pub open spec fn json_quoted(s: Seq<char>) -> Seq<char> {
    seq!['"'] + json_escaped(s) + seq!['"']
}

/// The canonical JSON encoding of an envelope around `r`.
pub open spec fn envelope_json(r: Result<Seq<char>, Seq<char>>) -> Seq<char> {
    match r {
        Ok(v) => seq!['{', '"', 'o', 'k', '"', ':'] + json_quoted(v) + seq!['}'],
        Err(v) => seq!['{', '"', 'e', 'r', 'r', '"', ':'] + json_quoted(v) + seq!['}'],
    }
}

/// The view of an executable outcome value, payloads as character sequences.
pub open spec fn outcome_view(r: Result<String, String>) -> Result<Seq<char>, Seq<char>> {
    match r {
        Ok(v) => Ok(v@),
        Err(v) => Err(v@),
    }
}

/// Escaping distributes over concatenation.
pub proof fn lemma_json_escaped_concat(a: Seq<char>, b: Seq<char>)
    ensures
        json_escaped(a + b) == json_escaped(a) + json_escaped(b),
    decreases a.len(),
{
    if a.len() == 0 {
        assert(a + b =~= b);
        assert(json_escaped(a) + json_escaped(b) =~= json_escaped(b));
    } else {
        lemma_json_escaped_concat(a.skip(1), b);
        assert((a + b).skip(1) =~= a.skip(1) + b);
        assert(escaped_char((a + b)[0]) + (json_escaped(a.skip(1)) + json_escaped(b)) =~= (
        escaped_char(a[0]) + json_escaped(a.skip(1))) + json_escaped(b));
    }
}

/// A single character escapes to its escape sequence.
pub proof fn lemma_json_escaped_single(c: char)
    ensures
        json_escaped(seq![c]) == escaped_char(c),
{
    let s = seq![c];
    assert(s.len() == 1);
    assert(s[0] == c);
    assert(s.skip(1) =~= Seq::<char>::empty());
    assert(json_escaped(s) == escaped_char(c) + json_escaped(Seq::<char>::empty()));
    assert(json_escaped(Seq::<char>::empty()) == Seq::<char>::empty());
    assert(escaped_char(c) + Seq::<char>::empty() =~= escaped_char(c));
}

fn hex_digit_char(n: u32) -> (c: char)
    requires
        n < 16,
    ensures
        c == hex_digit(n),
{
    if n == 0 {
        '0'
    } else if n == 1 {
        '1'
    } else if n == 2 {
        '2'
    } else if n == 3 {
        '3'
    } else if n == 4 {
        '4'
    } else if n == 5 {
        '5'
    } else if n == 6 {
        '6'
    } else if n == 7 {
        '7'
    } else if n == 8 {
        '8'
    } else if n == 9 {
        '9'
    } else if n == 10 {
        'a'
    } else if n == 11 {
        'b'
    } else if n == 12 {
        'c'
    } else if n == 13 {
        'd'
    } else if n == 14 {
        'e'
    } else {
        'f'
    }
}

fn push_escaped_char(out: &mut Vec<char>, c: char)
    ensures
        final(out)@ == old(out)@ + escaped_char(c),
{
    if c == '"' {
        out.push('\\');
        out.push('"');
    } else if c == '\\' {
        out.push('\\');
        out.push('\\');
    } else if c == '\u{0008}' {
        out.push('\\');
        out.push('b');
    } else if c == '\u{0009}' {
        out.push('\\');
        out.push('t');
    } else if c == '\u{000A}' {
        out.push('\\');
        out.push('n');
    } else if c == '\u{000C}' {
        out.push('\\');
        out.push('f');
    } else if (c as u32) == 0x0D {
        out.push('\\');
        out.push('r');
    } else if (c as u32) < 0x20 {
        let v: u32 = c as u32;
        out.push('\\');
        out.push('u');
        out.push('0');
        out.push('0');
        out.push(hex_digit_char(v / 16));
        out.push(hex_digit_char(v % 16));
    } else {
        out.push(c);
    }
    proof {
        assert(out@ =~= old(out)@ + escaped_char(c));
    }
}

fn push_escaped(out: &mut Vec<char>, s: &str)
    ensures
        final(out)@ == old(out)@ + json_escaped(s@),
{
    let n = s.unicode_len();
    let ghost start = out@;
    let mut i: usize = 0;
    while i < n
        invariant
            n == s@.len(),
            i <= n,
            out@ == start + json_escaped(s@.take(i as int)),
        decreases n - i,
    {
        let c = s.get_char(i);
        proof {
            lemma_json_escaped_concat(s@.take(i as int), seq![s@[i as int]]);
            assert(s@.take(i as int + 1) =~= s@.take(i as int) + seq![s@[i as int]]);
            lemma_json_escaped_single(s@[i as int]);
        }
        push_escaped_char(out, c);
        i = i + 1;
    }
    proof {
        assert(s@.take(n as int) =~= s@);
    }
}

/// Relies on std's `FromIterator` implementation for `String`: collecting an
/// iterator of characters yields the string of exactly those characters in
/// order.
#[verifier::external_body]
fn string_from_chars(chars: &Vec<char>) -> (r: String)
    ensures
        r@ == chars@,
{
    chars.iter().collect()
}

/// The transport value every boundary call ends in: a success payload or a
/// failure payload, both plain strings.
pub enum JellyResult {
    Success(String),
    Failure(String),
}

impl JellyResult {
    /// The outcome this envelope carries.
    pub open spec fn as_outcome(&self) -> Result<Seq<char>, Seq<char>> {
        match self {
            JellyResult::Success(v) => Ok(v@),
            JellyResult::Failure(v) => Err(v@),
        }
    }

    /// Tag an outcome, success payloads under `ok` and failures under `err`.
    pub fn from_outcome(value: Result<String, String>) -> (r: JellyResult)
        ensures
            r.as_outcome() == outcome_view(value),
    {
        match value {
            Ok(v) => JellyResult::Success(v),
            Err(v) => JellyResult::Failure(v),
        }
    }

    /// Serialize the envelope to its canonical JSON encoding. This never
    /// fails: the encoding is total.
    pub fn to_json(&self) -> (r: String)
        ensures
            r@ == envelope_json(self.as_outcome()),
    {
        let mut out: Vec<char> = Vec::new();
        out.push('{');
        out.push('"');
        let payload: &String = match self {
            JellyResult::Success(v) => {
                out.push('o');
                out.push('k');
                v
            },
            JellyResult::Failure(v) => {
                out.push('e');
                out.push('r');
                out.push('r');
                v
            },
        };
        out.push('"');
        out.push(':');
        out.push('"');
        push_escaped(&mut out, payload.as_str());
        out.push('"');
        out.push('}');
        let r = string_from_chars(&out);
        proof {
            assert(r@ =~= envelope_json(self.as_outcome()));
        }
        r
    }
}

/// The numeric value of a lowercase hexadecimal digit, or 16 for any other
/// character.
pub open spec fn hex_value(c: char) -> u32 {
    if c == '0' {
        0
    } else if c == '1' {
        1
    } else if c == '2' {
        2
    } else if c == '3' {
        3
    } else if c == '4' {
        4
    } else if c == '5' {
        5
    } else if c == '6' {
        6
    } else if c == '7' {
        7
    } else if c == '8' {
        8
    } else if c == '9' {
        9
    } else if c == 'a' {
        10
    } else if c == 'b' {
        11
    } else if c == 'c' {
        12
    } else if c == 'd' {
        13
    } else if c == 'e' {
        14
    } else if c == 'f' {
        15
    } else {
        16
    }
}

/// Prefix a decoded character to the rest of a decoding, if the rest
/// decoded at all.
pub open spec fn unescape_cons(c: char, rest: Option<Seq<char>>) -> Option<Seq<char>> {
    match rest {
        Some(r) => Some(seq![c] + r),
        None => None,
    }
}

/// Decode the body of a JSON string literal: the inverse of `json_escaped`.
/// A raw quote or a malformed escape makes the body undecodable.
pub open spec fn json_unescaped(s: Seq<char>) -> Option<Seq<char>>
    decreases s.len(),
{
    if s.len() == 0 {
        Some(Seq::empty())
    } else if s[0] == '\\' {
        if s.len() < 2 {
            None
        } else if s[1] == '"' {
            unescape_cons('"', json_unescaped(s.skip(2)))
        } else if s[1] == '\\' {
            unescape_cons('\\', json_unescaped(s.skip(2)))
        } else if s[1] == 'b' {
            unescape_cons('\u{0008}', json_unescaped(s.skip(2)))
        } else if s[1] == 't' {
            unescape_cons('\u{0009}', json_unescaped(s.skip(2)))
        } else if s[1] == 'n' {
            unescape_cons('\u{000A}', json_unescaped(s.skip(2)))
        } else if s[1] == 'f' {
            unescape_cons('\u{000C}', json_unescaped(s.skip(2)))
        } else if s[1] == 'r' {
            unescape_cons('\u{000D}', json_unescaped(s.skip(2)))
        } else if s[1] == 'u' {
            if s.len() < 6 {
                None
            } else {
                let code = hex_value(s[2]) * 4096 + hex_value(s[3]) * 256 + hex_value(s[4]) * 16
                    + hex_value(s[5]);
                if hex_value(s[2]) < 16 && hex_value(s[3]) < 16 && hex_value(s[4]) < 16
                    && hex_value(s[5]) < 16 && code < 0xD800 {
                    unescape_cons(code as char, json_unescaped(s.skip(6)))
                } else {
                    None
                }
            }
        } else {
            None
        }
    } else if s[0] == '"' {
        None
    } else {
        unescape_cons(s[0], json_unescaped(s.skip(1)))
    }
}

/// Decoding inverts escaping: every escaped body decodes, back to the
/// payload it came from.
pub proof fn lemma_unescape_escape(s: Seq<char>)
    ensures
        json_unescaped(json_escaped(s)) == Some(s),
    decreases s.len(),
{
    if s.len() == 0 {
    } else {
        let c = s[0];
        lemma_unescape_escape(s.skip(1));
        let e = escaped_char(c);
        let rest = json_escaped(s.skip(1));
        let t = e + rest;
        assert(json_escaped(s) == t);
        assert(seq![c] + s.skip(1) =~= s);
        if c == '"' || c == '\\' || c == '\u{0008}' || c == '\u{0009}' || c == '\u{000A}' || c
            == '\u{000C}' || c == '\u{000D}' {
            assert(t[0] == '\\');
            assert(t.skip(2) =~= rest);
        } else if (c as u32) < 0x20 {
            let v = c as u32;
            assert(t[0] == '\\');
            assert(t[1] == 'u');
            assert(t[2] == '0');
            assert(t[3] == '0');
            assert(t[4] == hex_digit(v / 16));
            assert(t[5] == hex_digit(v % 16));
            assert(t.skip(6) =~= rest);
            assert(hex_value(hex_digit(v / 16)) == v / 16);
            assert(hex_value(hex_digit(v % 16)) == v % 16);
            let code = hex_value(t[2]) * 4096 + hex_value(t[3]) * 256 + hex_value(t[4]) * 16
                + hex_value(t[5]);
            assert(code == v);
            vstd::utf8::char_u32_cast(c, v);
            assert(code as char == c);
        } else {
            assert(t[0] == c);
            assert(c != '\\' && c != '"');
            assert(t.skip(1) =~= rest);
        }
    }
}

/// The seven characters every success envelope opens with.
pub open spec fn ok_opening() -> Seq<char> {
    seq!['{', '"', 'o', 'k', '"', ':', '"']
}

/// The eight characters every failure envelope opens with.
pub open spec fn err_opening() -> Seq<char> {
    seq!['{', '"', 'e', 'r', 'r', '"', ':', '"']
}

/// Decode an envelope: recognize exactly one of the two openings, demand the
/// closing quote and brace, and decode the payload in between.
pub open spec fn envelope_parse(s: Seq<char>) -> Option<Result<Seq<char>, Seq<char>>> {
    if s.len() >= 9 && s.subrange(0, 7) == ok_opening() && s[s.len() - 2] == '"' && s[s.len()
        - 1] == '}' {
        match json_unescaped(s.subrange(7, s.len() - 2)) {
            Some(p) => Some(Ok(p)),
            None => None,
        }
    } else if s.len() >= 10 && s.subrange(0, 8) == err_opening() && s[s.len() - 2] == '"' && s[
        s.len() - 1] == '}' {
        match json_unescaped(s.subrange(8, s.len() - 2)) {
            Some(p) => Some(Err(p)),
            None => None,
        }
    } else {
        None
    }
}

/// Every envelope this library emits is well formed: it decodes, as exactly
/// the outcome it was built from, with exactly one of the two tags present.
pub proof fn lemma_envelope_round_trip(r: Result<Seq<char>, Seq<char>>)
    ensures
        envelope_parse(envelope_json(r)) == Some(r),
{
    match r {
        Ok(v) => {
            let s = envelope_json(r);
            lemma_unescape_escape(v);
            assert(s.len() == 9 + json_escaped(v).len());
            assert(s.subrange(0, 7) =~= ok_opening());
            assert(s[s.len() - 2] == '"');
            assert(s[s.len() - 1] == '}');
            assert(s.subrange(7, s.len() - 2) =~= json_escaped(v));
        },
        Err(v) => {
            let s = envelope_json(r);
            lemma_unescape_escape(v);
            assert(s.len() == 10 + json_escaped(v).len());
            assert(s.subrange(0, 8) =~= err_opening());
            assert(s.subrange(0, 7) != ok_opening()) by {
                assert(err_opening()[2] == 'e');
            }
            assert(s[s.len() - 2] == '"');
            assert(s[s.len() - 1] == '}');
            assert(s.subrange(8, s.len() - 2) =~= json_escaped(v));
        },
    }
}

/// Two different outcomes never produce the same envelope text.
pub proof fn lemma_envelope_unambiguous(r1: Result<Seq<char>, Seq<char>>, r2: Result<
    Seq<char>,
    Seq<char>,
>)
    requires
        envelope_json(r1) == envelope_json(r2),
    ensures
        r1 == r2,
{
    lemma_envelope_round_trip(r1);
    lemma_envelope_round_trip(r2);
}

/// Wrap an outcome in the envelope and serialize it: the last step of every
/// boundary operation.
pub fn wrap_outcome(outcome: Result<String, String>) -> (r: String)
    ensures
        r@ == envelope_json(outcome_view(outcome)),
{
    JellyResult::from_outcome(outcome).to_json()
}

} // verus!
