//! A small JSON reader and writer.
//!
//! The context snapshots and run metadata this core writes are JSON; the
//! token-usage lines and executor events it reads are JSON. Escaping and
//! unescaping of strings is specified exactly and shown to round-trip;
//! the value parser is a plain recursive-descent reader.

use vstd::prelude::*;

use crate::text::digit_char;

verus! {

pub open spec fn hex_char(d: nat) -> char {
    if d < 10 {
        digit_char(d)
    } else if d == 10 {
        'a'
    } else if d == 11 {
        'b'
    } else if d == 12 {
        'c'
    } else if d == 13 {
        'd'
    } else if d == 14 {
        'e'
    } else {
        'f'
    }
}

/// The characters a string character is written as inside a JSON string:
/// quote and backslash get a backslash, the common controls their short
/// escapes, other controls a `\u00XX` form, everything else stands as is.
pub open spec fn spec_escape_char(c: char) -> Seq<char> {
    if c == '"' {
        seq!['\\', '"']
    } else if c == '\\' {
        seq!['\\', '\\']
    } else if c == '\n' {
        seq!['\\', 'n']
    } else if c == '\r' {
        seq!['\\', 'r']
    } else if c == '\t' {
        seq!['\\', 't']
    } else if (c as int) < 32 {
        seq!['\\', 'u', '0', '0', hex_char((c as nat) / 16), hex_char((c as nat) % 16)]
    } else {
        seq![c]
    }
}

/// A whole string escaped for a JSON string literal.
pub open spec fn spec_escape(s: Seq<char>) -> Seq<char>
    decreases s.len(),
{
    if s.len() == 0 {
        Seq::empty()
    } else {
        spec_escape(s.drop_last()) + spec_escape_char(s.last())
    }
}

fn push_hex_digit(out: &mut Vec<char>, d: u32)
    requires
        d < 16,
    ensures
        final(out)@ == old(out)@.push(hex_char(d as nat)),
{
    let c: char = if d == 0 { '0' }
        else if d == 1 { '1' }
        else if d == 2 { '2' }
        else if d == 3 { '3' }
        else if d == 4 { '4' }
        else if d == 5 { '5' }
        else if d == 6 { '6' }
        else if d == 7 { '7' }
        else if d == 8 { '8' }
        else if d == 9 { '9' }
        else if d == 10 { 'a' }
        else if d == 11 { 'b' }
        else if d == 12 { 'c' }
        else if d == 13 { 'd' }
        else if d == 14 { 'e' }
        else { 'f' };
    out.push(c);
}

/// Append the escaped form of one character.
fn push_escaped_char(out: &mut Vec<char>, c: char)
    ensures
        final(out)@ == old(out)@ + spec_escape_char(c),
{
    if c == '"' {
        out.push('\\');
        out.push('"');
        assert(out@ =~= old(out)@ + spec_escape_char(c));
    } else if c == '\\' {
        out.push('\\');
        out.push('\\');
        assert(out@ =~= old(out)@ + spec_escape_char(c));
    } else if c == '\n' {
        out.push('\\');
        out.push('n');
        assert(out@ =~= old(out)@ + spec_escape_char(c));
    } else if c == '\r' {
        out.push('\\');
        out.push('r');
        assert(out@ =~= old(out)@ + spec_escape_char(c));
    } else if c == '\t' {
        out.push('\\');
        out.push('t');
        assert(out@ =~= old(out)@ + spec_escape_char(c));
    } else if (c as u32) < 32 {
        out.push('\\');
        out.push('u');
        out.push('0');
        out.push('0');
        let code: u32 = c as u32;
        assert(code < 32);
        push_hex_digit(out, code / 16);
        push_hex_digit(out, code % 16);
        assert(out@ =~= old(out)@ + spec_escape_char(c));
    } else {
        out.push(c);
        assert(out@ =~= old(out)@ + spec_escape_char(c));
    }
}

/// Append the escaped form of a whole string.
pub fn push_escaped(out: &mut Vec<char>, s: &Vec<char>)
    ensures
        final(out)@ == old(out)@ + spec_escape(s@),
{
    let mut i: usize = 0;
    assert(out@ =~= old(out)@ + spec_escape(s@.subrange(0, 0)));
    while i < s.len()
        invariant
            i <= s@.len(),
            out@ == old(out)@ + spec_escape(s@.subrange(0, i as int)),
        decreases s@.len() - i,
    {
        proof {
            assert(s@.subrange(0, i as int + 1).drop_last() =~= s@.subrange(0, i as int));
            assert(s@.subrange(0, i as int + 1).last() == s@[i as int]);
        }
        push_escaped_char(out, s[i]);
        i += 1;
    }
    assert(s@.subrange(0, s@.len() as int) =~= s@);
}

// ------------------------------------------------------------------
// Unescaping
// ------------------------------------------------------------------

pub open spec fn spec_hex_val(c: char) -> int {
    if '0' <= c && c <= '9' {
        c as int - '0' as int
    } else if 'a' <= c && c <= 'f' {
        c as int - 'a' as int + 10
    } else if 'A' <= c && c <= 'F' {
        c as int - 'A' as int + 10
    } else {
        -1
    }
}

/// Parse of a JSON string body starting at `i` (after the opening
/// quote): the decoded characters and the position just past the closing
/// quote, or nothing when the input is not a closed, well-escaped string.
pub open spec fn spec_parse_string(cs: Seq<char>, i: int, acc: Seq<char>) -> Option<
    (Seq<char>, int),
>
    decreases cs.len() - i,
{
    if i < 0 || i >= cs.len() {
        None
    } else if cs[i] == '"' {
        Some((acc, i + 1))
    } else if cs[i] == '\\' {
        if i + 1 >= cs.len() {
            None
        } else {
            let e = cs[i + 1];
            if e == '"' {
                spec_parse_string(cs, i + 2, acc.push('"'))
            } else if e == '\\' {
                spec_parse_string(cs, i + 2, acc.push('\\'))
            } else if e == '/' {
                spec_parse_string(cs, i + 2, acc.push('/'))
            } else if e == 'n' {
                spec_parse_string(cs, i + 2, acc.push('\n'))
            } else if e == 'r' {
                spec_parse_string(cs, i + 2, acc.push('\r'))
            } else if e == 't' {
                spec_parse_string(cs, i + 2, acc.push('\t'))
            } else if e == 'b' {
                spec_parse_string(cs, i + 2, acc.push('\u{8}'))
            } else if e == 'f' {
                spec_parse_string(cs, i + 2, acc.push('\u{c}'))
            } else if e == 'u' {
                if i + 6 > cs.len() {
                    None
                } else {
                    let v = spec_hex_val(cs[i + 2]) * 4096 + spec_hex_val(cs[i + 3]) * 256
                        + spec_hex_val(cs[i + 4]) * 16 + spec_hex_val(cs[i + 5]);
                    if spec_hex_val(cs[i + 2]) < 0 || spec_hex_val(cs[i + 3]) < 0 || spec_hex_val(
                        cs[i + 4],
                    ) < 0 || spec_hex_val(cs[i + 5]) < 0 || (0xD800 <= v && v < 0xE000) {
                        None
                    } else {
                        spec_parse_string(cs, i + 6, acc.push(spec_char_of(v)))
                    }
                }
            } else {
                None
            }
        }
    } else {
        spec_parse_string(cs, i + 1, acc.push(cs[i]))
    }
}

/// Scalar value of a character.
pub open spec fn char_code(c: char) -> int {
    c as int
}

/// The character with this scalar value.
pub open spec fn spec_char_of(v: int) -> char {
    choose|c: char| #[trigger] char_code(c) == v
}

/// A character is recovered from its own scalar value.
pub proof fn lemma_char_of_inverse(c: char)
    ensures
        spec_char_of(c as int) == c,
{
    assert(exists|d: char| #[trigger] char_code(d) == c as int) by {
        assert(char_code(c) == c as int);
    }
}

/// Relies on char::from_u32: the character with the given scalar value,
/// defined exactly for values outside the surrogate range and below
/// 0x110000.
#[verifier::external_body]
pub fn char_from_u32(v: u32) -> (r: Option<char>)
    ensures
        (v < 0xD800 || (0xE000 <= v && v < 0x110000)) <==> r is Some,
        r is Some ==> r->Some_0 == spec_char_of(v as int) && r->Some_0 as u32 == v,
{
    char::from_u32(v)
}

fn hex_val(c: char) -> (r: i32)
    ensures
        r == spec_hex_val(c),
        -1 <= r < 16,
{
    if '0' <= c && c <= '9' {
        (c as u32 as i32) - ('0' as u32 as i32)
    } else if 'a' <= c && c <= 'f' {
        (c as u32 as i32) - ('a' as u32 as i32) + 10
    } else if 'A' <= c && c <= 'F' {
        (c as u32 as i32) - ('A' as u32 as i32) + 10
    } else {
        -1
    }
}

/// Read a JSON string body starting just after the opening quote;
/// returns the decoded text and the position just past the closing
/// quote.
pub fn parse_string_body(cs: &Vec<char>, start: usize) -> (r: Option<(Vec<char>, usize)>)
    requires
        start <= cs@.len(),
    ensures
        match r {
            Some(p) => {
                &&& spec_parse_string(cs@, start as int, Seq::empty()) == Some((p.0@, p.1 as int))
                &&& start < p.1 <= cs@.len()
            },
            None => spec_parse_string(cs@, start as int, Seq::empty()) is None,
        },
{
    let mut acc: Vec<char> = Vec::new();
    let mut i: usize = start;
    assert(acc@ =~= Seq::<char>::empty());
    loop
        invariant
            start <= i <= cs@.len(),
            spec_parse_string(cs@, start as int, Seq::empty()) == spec_parse_string(
                cs@,
                i as int,
                acc@,
            ),
        decreases cs@.len() - i,
    {
        if i >= cs.len() {
            return None;
        }
        let c: char = cs[i];
        if c == '"' {
            return Some((acc, i + 1));
        }
        if c == '\\' {
            if i + 1 >= cs.len() {
                return None;
            }
            let e: char = cs[i + 1];
            if e == '"' {
                acc.push('"');
                i += 2;
            } else if e == '\\' {
                acc.push('\\');
                i += 2;
            } else if e == '/' {
                acc.push('/');
                i += 2;
            } else if e == 'n' {
                acc.push('\n');
                i += 2;
            } else if e == 'r' {
                acc.push('\r');
                i += 2;
            } else if e == 't' {
                acc.push('\t');
                i += 2;
            } else if e == 'b' {
                acc.push('\u{8}');
                i += 2;
            } else if e == 'f' {
                acc.push('\u{c}');
                i += 2;
            } else if e == 'u' {
                if cs.len() - i < 6 {
                    return None;
                }
                let h1: i32 = hex_val(cs[i + 2]);
                let h2: i32 = hex_val(cs[i + 3]);
                let h3: i32 = hex_val(cs[i + 4]);
                let h4: i32 = hex_val(cs[i + 5]);
                if h1 < 0 || h2 < 0 || h3 < 0 || h4 < 0 {
                    return None;
                }
                let v: u32 = (h1 as u32) * 4096 + (h2 as u32) * 256 + (h3 as u32) * 16 + (
                h4 as u32);
                if 0xD800 <= v && v < 0xE000 {
                    return None;
                }
                match char_from_u32(v) {
                    Some(decoded) => {
                        acc.push(decoded);
                        i += 6;
                    },
                    None => {
                        return None;
                    },
                }
            } else {
                return None;
            }
        } else {
            acc.push(c);
            i += 1;
        }
    }
}

// ------------------------------------------------------------------
// The escape round trip
// ------------------------------------------------------------------

proof fn lemma_escape_char_unescapes(cs: Seq<char>, i: int, c: char, acc: Seq<char>)
    requires
        0 <= i,
        i + spec_escape_char(c).len() <= cs.len(),
        cs.subrange(i, i + spec_escape_char(c).len()) == spec_escape_char(c),
    ensures
        spec_parse_string(cs, i, acc) == spec_parse_string(
            cs,
            i + spec_escape_char(c).len(),
            acc.push(c),
        ),
{
    let e = spec_escape_char(c);
    assert forall|k: int| 0 <= k < e.len() implies cs[i + k] == e[k] by {
        assert(cs.subrange(i, i + e.len())[k] == cs[i + k]);
    }
    assert(cs[i + 0] == e[0]);
    if e.len() > 1 {
        assert(cs[i + 1] == e[1]);
    }
    if e.len() > 2 {
        assert(cs[i + 2] == e[2]);
        assert(cs[i + 3] == e[3]);
        assert(cs[i + 4] == e[4]);
        assert(cs[i + 5] == e[5]);
    }
    if c == '"' || c == '\\' || c == '\n' || c == '\r' || c == '\t' {
        assert(cs[i] == '\\');
    } else if (c as int) < 32 {
        assert(cs[i] == '\\');
        assert(cs[i + 1] == 'u');
        assert(cs[i + 2] == '0');
        assert(cs[i + 3] == '0');
        assert(cs[i + 4] == hex_char((c as nat) / 16));
        assert(cs[i + 5] == hex_char((c as nat) % 16));
        let v = spec_hex_val(cs[i + 2]) * 4096 + spec_hex_val(cs[i + 3]) * 256 + spec_hex_val(
            cs[i + 4],
        ) * 16 + spec_hex_val(cs[i + 5]);
        assert(spec_hex_val('0') == 0);
        assert(spec_hex_val(hex_char((c as nat) / 16)) == (c as nat) / 16);
        assert(spec_hex_val(hex_char((c as nat) % 16)) == (c as nat) % 16);
        assert(v == c as int);
        assert(0 <= v < 32);
        assert(spec_char_of(v) == c) by {
            lemma_char_of_inverse(c);
        }
    } else {
        assert(cs[i] == c);
        assert(c != '"' && c != '\\');
    }
}

proof fn lemma_escape_unescapes(cs: Seq<char>, i: int, s: Seq<char>, acc: Seq<char>)
    requires
        0 <= i,
        i + spec_escape(s).len() + 1 <= cs.len(),
        cs.subrange(i, i + spec_escape(s).len()) == spec_escape(s),
        cs[i + spec_escape(s).len()] == '"',
    ensures
        spec_parse_string(cs, i, acc) == Some((acc + s, i + spec_escape(s).len() + 1)),
    decreases s.len(),
{
    lemma_escape_len(s);
    if s.len() == 0 {
        assert(spec_escape(s) =~= Seq::<char>::empty());
        assert(cs[i] == '"');
        assert(acc + s =~= acc);
    } else {
        let head = s.first();
        let tail = s.drop_first();
        lemma_escape_decompose(s);
        let e0 = spec_escape_char(head);
        lemma_escape_len(tail);
        assert forall|k: int| 0 <= k < e0.len() implies cs.subrange(i, i + e0.len())[k] == e0[k] by {
            assert(cs.subrange(i, i + spec_escape(s).len())[k] == cs[i + k]);
            assert((e0 + spec_escape(tail))[k] == e0[k]);
            assert(cs.subrange(i, i + e0.len())[k] == cs[i + k]);
        }
        assert(cs.subrange(i, i + e0.len()) =~= e0);
        lemma_escape_char_unescapes(cs, i, head, acc);
        assert forall|k: int|
            0 <= k < spec_escape(tail).len() implies cs.subrange(
            i + e0.len(),
            i + e0.len() + spec_escape(tail).len(),
        )[k] == spec_escape(tail)[k] by {
            assert(cs.subrange(i, i + spec_escape(s).len())[e0.len() + k] == cs[i + e0.len() + k]);
            assert((e0 + spec_escape(tail))[e0.len() + k] == spec_escape(tail)[k]);
            assert(cs.subrange(i + e0.len(), i + e0.len() + spec_escape(tail).len())[k] == cs[i
                + e0.len() + k]);
        }
        assert(cs.subrange(i + e0.len(), i + e0.len() + spec_escape(tail).len()) =~= spec_escape(
            tail,
        ));
        lemma_escape_unescapes(cs, i + e0.len(), tail, acc.push(head));
        assert(acc.push(head) + tail =~= acc + s);
    }
}

/// Escaping never shortens text.
pub proof fn lemma_escape_len(s: Seq<char>)
    ensures
        spec_escape(s).len() >= s.len(),
    decreases s.len(),
{
    if s.len() > 0 {
        lemma_escape_len(s.drop_last());
    }
}

proof fn lemma_escape_decompose(s: Seq<char>)
    requires
        s.len() > 0,
    ensures
        spec_escape(s) == spec_escape_char(s.first()) + spec_escape(s.drop_first()),
    decreases s.len(),
{
    if s.len() == 1 {
        assert(s.drop_last() =~= Seq::<char>::empty());
        assert(s.drop_first() =~= Seq::<char>::empty());
        assert(s.last() == s.first());
        assert(spec_escape(s) == spec_escape(s.drop_last()) + spec_escape_char(s.last()));
        assert(Seq::<char>::empty() + spec_escape_char(s.first()) =~= spec_escape_char(s.first()));
        assert(spec_escape_char(s.first()) + Seq::<char>::empty()
            =~= spec_escape_char(s.first()));
    } else {
        lemma_escape_decompose(s.drop_last());
        assert(s.drop_last().first() == s.first());
        assert(s.drop_last().drop_first() =~= s.drop_first().drop_last());
        assert(s.drop_first().last() == s.last());
        assert(spec_escape(s) == spec_escape(s.drop_last()) + spec_escape_char(s.last()));
        assert(spec_escape(s.drop_first()) == spec_escape(s.drop_first().drop_last())
            + spec_escape_char(s.last()));
        assert(spec_escape_char(s.first()) + (spec_escape(s.drop_first().drop_last())
            + spec_escape_char(s.last())) =~= (spec_escape_char(s.first()) + spec_escape(
            s.drop_first().drop_last(),
        )) + spec_escape_char(s.last()));
    }
}

/// Escaping a string and reading it back as a JSON string body yields
/// the original, with the position just past the closing quote.
pub proof fn lemma_escape_round_trip(cs: Seq<char>, i: int, s: Seq<char>)
    requires
        0 <= i,
        i + spec_escape(s).len() + 1 <= cs.len(),
        cs.subrange(i, i + spec_escape(s).len()) == spec_escape(s),
        cs[i + spec_escape(s).len()] == '"',
    ensures
        spec_parse_string(cs, i, Seq::empty()) == Some((s, i + spec_escape(s).len() + 1)),
{
    lemma_escape_unescapes(cs, i, s, Seq::empty());
    assert(Seq::<char>::empty() + s =~= s);
}

// ------------------------------------------------------------------
// Values
// ------------------------------------------------------------------

/// A parsed JSON value. Numbers that are plain integers in signed
/// 64-bit range are held as integers; other numbers keep their raw text.
#[derive(Debug)]
pub enum JsonValue {
    Null,
    Bool(bool),
    Int(i64),
    BigNum(String),
    Str(String),
    Arr(Vec<JsonValue>),
    Obj(Vec<(String, JsonValue)>),
}

/// First value stored under this key.
pub open spec fn spec_get_fields(fields: Seq<(String, JsonValue)>, key: Seq<char>) -> Option<
    JsonValue,
>
    decreases fields.len(),
{
    if fields.len() == 0 {
        None
    } else if fields[0].0@ == key {
        Some(fields[0].1)
    } else {
        spec_get_fields(fields.drop_first(), key)
    }
}

/// Member of an object under this key.
pub open spec fn spec_get(v: JsonValue, key: Seq<char>) -> Option<JsonValue> {
    match v {
        JsonValue::Obj(fields) => spec_get_fields(fields@, key),
        _ => None,
    }
}

/// The text of a string value.
pub open spec fn spec_as_str(v: JsonValue) -> Option<Seq<char>> {
    match v {
        JsonValue::Str(s) => Some(s@),
        _ => None,
    }
}

/// The value of a non-negative integer.
pub open spec fn spec_as_u64(v: JsonValue) -> Option<u64> {
    match v {
        JsonValue::Int(i) => if i >= 0 {
            Some(i as u64)
        } else {
            None
        },
        _ => None,
    }
}

impl JsonValue {
    /// Member of an object under this key, if this is an object that
    /// has it.
    pub fn get(&self, key: &str) -> (r: Option<&JsonValue>)
        ensures
            match r {
                Some(m) => spec_get(*self, key@) == Some(*m),
                None => spec_get(*self, key@) is None,
            },
    {
        match self {
            JsonValue::Obj(fields) => {
                let ghost all = fields@;
                assert(spec_get(*self, key@) == spec_get_fields(all, key@));
                let mut i: usize = 0;
                assert(all.skip(0) =~= all);
                while i < fields.len()
                    invariant
                        i <= fields@.len(),
                        all == fields@,
                        spec_get(*self, key@) == spec_get_fields(all, key@),
                        spec_get_fields(all, key@) == spec_get_fields(all.skip(i as int), key@),
                    decreases fields@.len() - i,
                {
                    assert(all.skip(i as int).first() == all[i as int]);
                    if crate::text::str_eq(fields[i].0.as_str(), key) {
                        assert(spec_get_fields(all.skip(i as int), key@) == Some(
                            all[i as int].1,
                        ));
                        let member: &JsonValue = &fields[i].1;
                        assert(*member == all[i as int].1);
                        return Some(member);
                    }
                    assert(all.skip(i as int).drop_first() =~= all.skip(i as int + 1));
                    i += 1;
                }
                assert(all.skip(all.len() as int) =~= Seq::<(String, JsonValue)>::empty());
                None
            },
            _ => None,
        }
    }

    /// The text of a string value.
    pub fn as_str(&self) -> (r: Option<&String>)
        ensures
            match r {
                Some(s) => spec_as_str(*self) == Some(s@),
                None => spec_as_str(*self) is None,
            },
    {
        match self {
            JsonValue::Str(s) => Some(s),
            _ => None,
        }
    }

    /// The value of a non-negative integer.
    pub fn as_u64(&self) -> (r: Option<u64>)
        ensures
            r == spec_as_u64(*self),
    {
        match self {
            JsonValue::Int(i) => {
                let v: i64 = *i;
                if v >= 0 {
                    Some(v as u64)
                } else {
                    None
                }
            },
            _ => None,
        }
    }
}

// ------------------------------------------------------------------
// Reading
// ------------------------------------------------------------------

fn is_ws(c: char) -> (r: bool)
    ensures
        r == (c == ' ' || c == '\t' || c == '\n' || c == '\r'),
{
    c == ' ' || c == '\t' || c == '\n' || c == '\r'
}

fn skip_ws(cs: &Vec<char>, pos: usize) -> (r: usize)
    requires
        pos <= cs@.len(),
    ensures
        pos <= r <= cs@.len(),
{
    let mut i: usize = pos;
    while i < cs.len()
        invariant
            pos <= i <= cs@.len(),
        decreases cs@.len() - i,
    {
        if !is_ws(cs[i]) {
            return i;
        }
        i += 1;
    }
    i
}

pub(crate) fn expect_literal(cs: &Vec<char>, pos: usize, lit: &Vec<char>) -> (r: bool)
    requires
        pos <= cs@.len(),
    ensures
        r == crate::text::matches_at(cs@, pos as int, lit@),
{
    if lit.len() > cs.len() - pos {
        return false;
    }
    crate::text::range_eq(cs, pos, lit)
}

/// Read one JSON value starting at `pos`; on success the value and the
/// position just past it. The reader accepts the standard grammar;
/// numbers with fractions or exponents, and integers outside signed
/// 64-bit range, are kept as raw text.
pub fn parse_value(cs: &Vec<char>, pos: usize) -> (r: Option<(JsonValue, usize)>)
    requires
        pos <= cs@.len(),
    ensures
        match r {
            Some(p) => pos < p.1 <= cs@.len(),
            None => true,
        },
    decreases cs@.len() - pos,
{
    let p: usize = skip_ws(cs, pos);
    if p >= cs.len() {
        return None;
    }
    let c: char = cs[p];
    if c == '{' {
        let mut fields: Vec<(String, JsonValue)> = Vec::new();
        let mut cur: usize = skip_ws(cs, p + 1);
        if cur >= cs.len() {
            return None;
        }
        if cs[cur] == '}' {
            return Some((JsonValue::Obj(fields), cur + 1));
        }
        loop
            invariant
                pos <= p < cur <= cs@.len(),
                p < cs@.len(),
            decreases cs@.len() - cur,
        {
            let key_start: usize = skip_ws(cs, cur);
            if key_start >= cs.len() || cs[key_start] != '"' {
                return None;
            }
            let (key_chars, after_key) = match parse_string_body(cs, key_start + 1) {
                Some(kp) => kp,
                None => {
                    return None;
                },
            };
            let key: String = crate::text::chars_to_string(&key_chars);
            let colon: usize = skip_ws(cs, after_key);
            if colon >= cs.len() || cs[colon] != ':' {
                return None;
            }
            assert(pos < colon + 1);
            let (member, after_member) = match parse_value(cs, colon + 1) {
                Some(vp) => vp,
                None => {
                    return None;
                },
            };
            fields.push((key, member));
            let next: usize = skip_ws(cs, after_member);
            if next >= cs.len() {
                return None;
            }
            if cs[next] == '}' {
                return Some((JsonValue::Obj(fields), next + 1));
            }
            if cs[next] != ',' {
                return None;
            }
            if next + 1 <= cur {
                return None;
            }
            cur = next + 1;
        }
    } else if c == '[' {
        let mut items: Vec<JsonValue> = Vec::new();
        let mut cur: usize = skip_ws(cs, p + 1);
        if cur >= cs.len() {
            return None;
        }
        if cs[cur] == ']' {
            return Some((JsonValue::Arr(items), cur + 1));
        }
        loop
            invariant
                pos <= p < cur <= cs@.len(),
                p < cs@.len(),
            decreases cs@.len() - cur,
        {
            assert(pos < cur);
            let (item, after_item) = match parse_value(cs, cur) {
                Some(vp) => vp,
                None => {
                    return None;
                },
            };
            items.push(item);
            let next: usize = skip_ws(cs, after_item);
            if next >= cs.len() {
                return None;
            }
            if cs[next] == ']' {
                return Some((JsonValue::Arr(items), next + 1));
            }
            if cs[next] != ',' {
                return None;
            }
            if next + 1 <= cur {
                return None;
            }
            cur = next + 1;
        }
    } else if c == '"' {
        match parse_string_body(cs, p + 1) {
            Some(sp) => Some((JsonValue::Str(crate::text::chars_to_string(&sp.0)), sp.1)),
            None => None,
        }
    } else if c == 't' {
        let mut lit: Vec<char> = Vec::new();
        lit.push('t');
        lit.push('r');
        lit.push('u');
        lit.push('e');
        if expect_literal(cs, p, &lit) {
            Some((JsonValue::Bool(true), p + 4))
        } else {
            None
        }
    } else if c == 'f' {
        let mut lit: Vec<char> = Vec::new();
        lit.push('f');
        lit.push('a');
        lit.push('l');
        lit.push('s');
        lit.push('e');
        if expect_literal(cs, p, &lit) {
            Some((JsonValue::Bool(false), p + 5))
        } else {
            None
        }
    } else if c == 'n' {
        let mut lit: Vec<char> = Vec::new();
        lit.push('n');
        lit.push('u');
        lit.push('l');
        lit.push('l');
        if expect_literal(cs, p, &lit) {
            Some((JsonValue::Null, p + 4))
        } else {
            None
        }
    } else if c == '-' || ('0' <= c && c <= '9') {
        parse_number(cs, p)
    } else {
        None
    }
}

fn digit_of(c: char) -> (r: Option<u32>)
    ensures
        match r {
            Some(d) => d < 10 && '0' <= c && c <= '9',
            None => !('0' <= c && c <= '9'),
        },
{
    if '0' <= c && c <= '9' {
        Some((c as u32) - ('0' as u32))
    } else {
        None
    }
}

fn parse_number(cs: &Vec<char>, p: usize) -> (r: Option<(JsonValue, usize)>)
    requires
        p < cs@.len(),
        cs@[p as int] == '-' || ('0' <= cs@[p as int] && cs@[p as int] <= '9'),
    ensures
        match r {
            Some(t) => p < t.1 <= cs@.len(),
            None => true,
        },
{
    let n: usize = cs.len();
    let mut i: usize = p;
    let negative: bool = cs[p] == '-';
    if negative {
        i += 1;
    }
    let digits_start: usize = i;
    let mut magnitude: i64 = 0;
    let mut big: bool = false;
    while i < cs.len()
        invariant
            digits_start <= i <= cs@.len(),
            p <= digits_start,
            magnitude >= 0,
        decreases cs@.len() - i,
    {
        match digit_of(cs[i]) {
            Some(d) => {
                if magnitude > (i64::MAX - (d as i64)) / 10 {
                    big = true;
                } else {
                    magnitude = magnitude * 10 + (d as i64);
                }
                i += 1;
            },
            None => {
                break;
            },
        }
    }
    if i == digits_start {
        return None;
    }
    // fraction or exponent turns the number into raw text
    let mut fractional: bool = false;
    if i < cs.len() && cs[i] == '.' {
        fractional = true;
        i += 1;
        let frac_start: usize = i;
        while i < cs.len()
            invariant
                frac_start <= i <= cs@.len(),
            decreases cs@.len() - i,
        {
            if digit_of(cs[i]).is_none() {
                break;
            }
            i += 1;
        }
        if i == frac_start {
            return None;
        }
    }
    if i < cs.len() && (cs[i] == 'e' || cs[i] == 'E') {
        fractional = true;
        i += 1;
        if i < cs.len() && (cs[i] == '+' || cs[i] == '-') {
            i += 1;
        }
        let exp_start: usize = i;
        while i < cs.len()
            invariant
                exp_start <= i <= cs@.len(),
            decreases cs@.len() - i,
        {
            if digit_of(cs[i]).is_none() {
                break;
            }
            i += 1;
        }
        if i == exp_start {
            return None;
        }
    }
    if big || fractional {
        let raw: Vec<char> = crate::text::copy_range(cs, p, i);
        return Some((JsonValue::BigNum(crate::text::chars_to_string(&raw)), i));
    }
    if negative {
        Some((JsonValue::Int(-magnitude), i))
    } else {
        Some((JsonValue::Int(magnitude), i))
    }
}

/// Read a whole line as one JSON value; trailing whitespace is allowed,
/// anything else after the value is rejected.
pub fn parse_json(text: &str) -> (r: Option<JsonValue>)
{
    let cs: Vec<char> = crate::text::str_to_chars(text);
    match parse_value(&cs, 0) {
        Some(vp) => {
            let rest: usize = skip_ws(&cs, vp.1);
            if rest == cs.len() {
                Some(vp.0)
            } else {
                None
            }
        },
        None => None,
    }
}

// ------------------------------------------------------------------
// A compact subset of the grammar, specified exactly
// ------------------------------------------------------------------
//
// Executor event lines are compact JSON: no surrounding whitespace,
// string and integer leaves, and bounded object nesting. On that
// subset the positions and contents below pin the text down exactly;
// the general reader above covers everything else.

/// End of the string literal whose opening quote stands at `i`
/// (the position just past the closing quote), or -1.
pub open spec fn spec_str_end(s: Seq<char>, i: int) -> int {
    if 0 <= i < s.len() && s[i] == '"' {
        match spec_parse_string(s, i + 1, Seq::empty()) {
            Some(p) => p.1,
            None => -1,
        }
    } else {
        -1
    }
}

/// The decoded content of the string literal at `i`.
pub open spec fn spec_str_content(s: Seq<char>, i: int) -> Seq<char> {
    match spec_parse_string(s, i + 1, Seq::empty()) {
        Some(p) => p.0,
        None => Seq::empty(),
    }
}

proof fn lemma_parse_string_advances(s: Seq<char>, i: int, acc: Seq<char>)
    requires
        0 <= i,
    ensures
        spec_parse_string(s, i, acc) matches Some(p) ==> i < p.1 <= s.len(),
    decreases s.len() - i + 1,
{
    if i < s.len() && s[i] != '"' {
        if s[i] == '\\' {
            if i + 1 < s.len() {
                let e = s[i + 1];
                if e == '"' {
                    lemma_parse_string_advances(s, i + 2, acc.push('"'));
                } else if e == '\\' {
                    lemma_parse_string_advances(s, i + 2, acc.push('\\'));
                } else if e == '/' {
                    lemma_parse_string_advances(s, i + 2, acc.push('/'));
                } else if e == 'n' {
                    lemma_parse_string_advances(s, i + 2, acc.push('\n'));
                } else if e == 'r' {
                    lemma_parse_string_advances(s, i + 2, acc.push('\r'));
                } else if e == 't' {
                    lemma_parse_string_advances(s, i + 2, acc.push('\t'));
                } else if e == 'b' {
                    lemma_parse_string_advances(s, i + 2, acc.push('\u{8}'));
                } else if e == 'f' {
                    lemma_parse_string_advances(s, i + 2, acc.push('\u{c}'));
                } else if e == 'u' {
                    if i + 6 <= s.len() {
                        let v = spec_hex_val(s[i + 2]) * 4096 + spec_hex_val(s[i + 3]) * 256
                            + spec_hex_val(s[i + 4]) * 16 + spec_hex_val(s[i + 5]);
                        lemma_parse_string_advances(s, i + 6, acc.push(spec_char_of(v)));
                    }
                }
            }
        } else {
            lemma_parse_string_advances(s, i + 1, acc.push(s[i]));
        }
    }
}

/// The string literal at `i` spans at least two characters.
pub proof fn lemma_str_end_advances(s: Seq<char>, i: int)
    requires
        0 <= i,
    ensures
        spec_str_end(s, i) >= 0 ==> i + 1 < spec_str_end(s, i) <= s.len(),
{
    if 0 <= i < s.len() && s[i] == '"' {
        lemma_parse_string_advances(s, i + 1, Seq::empty());
    }
}

/// End of the maximal digit run starting at `i`.
pub open spec fn spec_digit_run_end(s: Seq<char>, i: int) -> int
    decreases s.len() - i + 1,
{
    if 0 <= i < s.len() && '0' <= s[i] && s[i] <= '9' {
        spec_digit_run_end(s, i + 1)
    } else {
        i
    }
}

proof fn lemma_digit_run_bounds(s: Seq<char>, i: int)
    requires
        0 <= i <= s.len(),
    ensures
        i <= spec_digit_run_end(s, i) <= s.len(),
        forall|m: int| i <= m < spec_digit_run_end(s, i) ==> '0' <= s[m] && s[m] <= '9',
        spec_digit_run_end(s, i) < s.len() ==> !('0' <= s[spec_digit_run_end(s, i)]
            && s[spec_digit_run_end(s, i)] <= '9'),
    decreases s.len() - i + 1,
{
    if i < s.len() && '0' <= s[i] && s[i] <= '9' {
        lemma_digit_run_bounds(s, i + 1);
    }
}

/// Value of the digit run `s[j, b)` accumulated left to right onto
/// `acc`, refusing signed 64-bit overflow with -1.
pub open spec fn spec_digits_read(s: Seq<char>, j: int, b: int, acc: int) -> int
    decreases b - j,
{
    if j >= b {
        acc
    } else {
        let d = s[j] as int - '0' as int;
        if acc > (i64::MAX - d) / 10 {
            -1
        } else {
            spec_digits_read(s, j + 1, b, acc * 10 + d)
        }
    }
}

/// End of the subset integer at `i`: an optional minus, a non-empty
/// digit run, no fraction or exponent, magnitude within signed 64-bit
/// range; -1 otherwise.
pub open spec fn spec_int_end(s: Seq<char>, i: int) -> int {
    if i < 0 || i >= s.len() {
        -1
    } else {
        let d0 = if s[i] == '-' {
            i + 1
        } else {
            i
        };
        let e = spec_digit_run_end(s, d0);
        if e == d0 {
            -1
        } else if e < s.len() && (s[e] == '.' || s[e] == 'e' || s[e] == 'E') {
            -1
        } else if spec_digits_read(s, d0, e, 0) < 0 {
            -1
        } else {
            e
        }
    }
}

/// Signed value of the subset integer at `i` (meaningful when
/// `spec_int_end(s, i) >= 0`).
pub open spec fn spec_int_value(s: Seq<char>, i: int) -> int {
    if 0 <= i < s.len() && s[i] == '-' {
        -spec_digits_read(s, i + 1, spec_int_end(s, i), 0)
    } else {
        spec_digits_read(s, i, spec_int_end(s, i), 0)
    }
}

/// End of a subset value at `i`: a string, a subset integer, or — with
/// nesting budget left — an object of subset values; -1 otherwise.
/// The fuel bounds recursion; any fuel of at least `s.len() + 1` is
/// enough for every accepted input.
pub open spec fn spec_sub_value_end(s: Seq<char>, i: int, level: nat, fuel: nat) -> int
    decreases fuel,
{
    if fuel == 0 {
        -1
    } else if i < 0 || i >= s.len() {
        -1
    } else if s[i] == '"' {
        spec_str_end(s, i)
    } else if s[i] == '{' {
        if level == 0 {
            -1
        } else if i + 1 < s.len() && s[i + 1] == '}' {
            i + 2
        } else {
            spec_sub_members_end(s, i + 1, (level - 1) as nat, (fuel - 1) as nat)
        }
    } else {
        spec_int_end(s, i)
    }
}

/// End of a subset member list starting at the first member's quote:
/// `"key":value` members separated by commas, closed by `}`. The
/// position returned is just past the closing brace, or -1.
pub open spec fn spec_sub_members_end(s: Seq<char>, i: int, vlevel: nat, fuel: nat) -> int
    decreases fuel,
{
    if fuel == 0 {
        -1
    } else {
        let ke = spec_str_end(s, i);
        if ke < 0 || ke >= s.len() || s[ke] != ':' {
            -1
        } else {
            let ve = spec_sub_value_end(s, ke + 1, vlevel, (fuel - 1) as nat);
            if ve < 0 || ve >= s.len() {
                -1
            } else if s[ve] == '}' {
                ve + 1
            } else if s[ve] == ',' {
                spec_sub_members_end(s, ve + 1, vlevel, (fuel - 1) as nat)
            } else {
                -1
            }
        }
    }
}

/// Accepted subset spans only grow: a successful end lies past the
/// start and within the text.
pub proof fn lemma_sub_value_advances(s: Seq<char>, i: int, level: nat, fuel: nat)
    requires
        0 <= i,
    ensures
        spec_sub_value_end(s, i, level, fuel) >= 0 ==> i < spec_sub_value_end(s, i, level, fuel)
            <= s.len(),
    decreases fuel, 1int,
{
    if fuel > 0 && 0 <= i < s.len() {
        if s[i] == '"' {
            lemma_str_end_advances(s, i);
        } else if s[i] == '{' {
            if level > 0 && !(i + 1 < s.len() && s[i + 1] == '}') {
                lemma_sub_members_advance(s, i + 1, (level - 1) as nat, (fuel - 1) as nat);
            }
        } else {
            if spec_int_end(s, i) >= 0 {
                lemma_digit_run_bounds(
                    s,
                    if s[i] == '-' {
                        i + 1
                    } else {
                        i
                    },
                );
            }
        }
    }
}

proof fn lemma_sub_members_advance(s: Seq<char>, i: int, vlevel: nat, fuel: nat)
    requires
        0 <= i,
    ensures
        spec_sub_members_end(s, i, vlevel, fuel) >= 0 ==> i < spec_sub_members_end(
            s,
            i,
            vlevel,
            fuel,
        ) <= s.len(),
    decreases fuel, 0int,
{
    if fuel > 0 {
        let ke = spec_str_end(s, i);
        lemma_str_end_advances(s, i);
        if ke >= 0 && ke < s.len() && s[ke] == ':' {
            lemma_sub_value_advances(s, ke + 1, vlevel, (fuel - 1) as nat);
            let ve = spec_sub_value_end(s, ke + 1, vlevel, (fuel - 1) as nat);
            if ve >= 0 && ve < s.len() && s[ve] == ',' {
                lemma_sub_members_advance(s, ve + 1, vlevel, (fuel - 1) as nat);
            }
        }
    }
}

/// Enough fuel makes the subset spans fuel-independent.
pub proof fn lemma_sub_value_fuel(s: Seq<char>, i: int, level: nat, f1: nat, f2: nat)
    requires
        0 <= i,
        f1 >= s.len() - i + 1,
        f2 >= s.len() - i + 1,
    ensures
        spec_sub_value_end(s, i, level, f1) == spec_sub_value_end(s, i, level, f2),
    decreases f1, 1int,
{
    if 0 <= i < s.len() && s[i] == '{' && level > 0 && !(i + 1 < s.len() && s[i + 1] == '}') {
        lemma_sub_members_fuel(s, i + 1, (level - 1) as nat, (f1 - 1) as nat, (f2 - 1) as nat);
    }
}

proof fn lemma_sub_members_fuel(s: Seq<char>, i: int, vlevel: nat, f1: nat, f2: nat)
    requires
        0 <= i,
        f1 >= s.len() - i + 1,
        f2 >= s.len() - i + 1,
    ensures
        spec_sub_members_end(s, i, vlevel, f1) == spec_sub_members_end(s, i, vlevel, f2),
    decreases f1, 0int,
{
    let ke = spec_str_end(s, i);
    lemma_str_end_advances(s, i);
    if ke >= 0 && ke < s.len() && s[ke] == ':' {
        lemma_sub_value_fuel(s, ke + 1, vlevel, (f1 - 1) as nat, (f2 - 1) as nat);
        lemma_sub_value_advances(s, ke + 1, vlevel, (f1 - 1) as nat);
        let ve = spec_sub_value_end(s, ke + 1, vlevel, (f1 - 1) as nat);
        if ve >= 0 && ve < s.len() && s[ve] == ',' {
            lemma_sub_members_fuel(s, ve + 1, vlevel, (f1 - 1) as nat, (f2 - 1) as nat);
        }
    }
}

/// The span `[a, b)` of the value stored under `key` in the member
/// list starting at `i`, scanning members in order; nothing when the
/// key is absent or the list leaves the subset.
pub open spec fn spec_sub_member_value(
    s: Seq<char>,
    i: int,
    key: Seq<char>,
    vlevel: nat,
    fuel: nat,
) -> Option<(int, int)>
    decreases fuel,
{
    if fuel == 0 {
        None
    } else {
        let ke = spec_str_end(s, i);
        if ke < 0 || ke >= s.len() || s[ke] != ':' {
            None
        } else {
            let ve = spec_sub_value_end(s, ke + 1, vlevel, (fuel - 1) as nat);
            if ve < 0 || ve >= s.len() {
                None
            } else if spec_str_content(s, i) == key {
                Some((ke + 1, ve))
            } else if s[ve] == ',' {
                spec_sub_member_value(s, ve + 1, key, vlevel, (fuel - 1) as nat)
            } else {
                None
            }
        }
    }
}

/// The span of `key`'s value inside the object at `obj`, or nothing.
pub open spec fn spec_obj_member(
    s: Seq<char>,
    obj: int,
    key: Seq<char>,
    vlevel: nat,
    fuel: nat,
) -> Option<(int, int)> {
    if 0 <= obj < s.len() && s[obj] == '{' && !(obj + 1 < s.len() && s[obj + 1] == '}') {
        spec_sub_member_value(s, obj + 1, key, vlevel, fuel)
    } else {
        None
    }
}

/// The content of the string leaf at `a`, if the span is one.
pub open spec fn spec_str_leaf(s: Seq<char>, a: int, b: int) -> Option<Seq<char>> {
    if spec_str_end(s, a) == b && b >= 0 {
        Some(spec_str_content(s, a))
    } else {
        None
    }
}

/// The value of the integer leaf at `a` as a 32-bit count, if the span
/// is one in range.
pub open spec fn spec_u32_leaf(s: Seq<char>, a: int, b: int) -> Option<u32> {
    if spec_int_end(s, a) == b && b >= 0 && 0 <= spec_int_value(s, a) <= u32::MAX {
        Some(spec_int_value(s, a) as u32)
    } else {
        None
    }
}

proof fn lemma_digit_run_exact(s: Seq<char>, a: int, b: int)
    requires
        0 <= a <= b <= s.len(),
        forall|m: int| a <= m < b ==> '0' <= s[m] && s[m] <= '9',
        b == s.len() || !('0' <= s[b] && s[b] <= '9'),
    ensures
        spec_digit_run_end(s, a) == b,
    decreases b - a,
{
    if a < b {
        lemma_digit_run_exact(s, a + 1, b);
    }
}

proof fn lemma_sub_member_fuel(
    s: Seq<char>,
    i: int,
    key: Seq<char>,
    vlevel: nat,
    f1: nat,
    f2: nat,
)
    requires
        0 <= i,
        f1 >= s.len() - i + 1,
        f2 >= s.len() - i + 1,
    ensures
        spec_sub_member_value(s, i, key, vlevel, f1) == spec_sub_member_value(s, i, key, vlevel, f2),
    decreases f1,
{
    let ke = spec_str_end(s, i);
    lemma_str_end_advances(s, i);
    if ke >= 0 && ke < s.len() && s[ke] == ':' {
        lemma_sub_value_fuel(s, ke + 1, vlevel, (f1 - 1) as nat, (f2 - 1) as nat);
        lemma_sub_value_advances(s, ke + 1, vlevel, (f1 - 1) as nat);
        let ve = spec_sub_value_end(s, ke + 1, vlevel, (f1 - 1) as nat);
        if ve >= 0 && ve < s.len() && spec_str_content(s, i) != key && s[ve] == ',' {
            lemma_sub_member_fuel(s, ve + 1, key, vlevel, (f1 - 1) as nat, (f2 - 1) as nat);
        }
    }
}

/// Read the string literal at `i`: its decoded content and end.
pub fn sub_str_read(cs: &Vec<char>, i: usize) -> (r: Option<(Vec<char>, usize)>)
    requires
        i <= cs@.len(),
    ensures
        match r {
            Some(p) => {
                &&& spec_str_end(cs@, i as int) == p.1
                &&& spec_str_content(cs@, i as int) == p.0@
                &&& i + 1 < p.1 <= cs@.len()
            },
            None => spec_str_end(cs@, i as int) == -1,
        },
{
    let n: usize = cs.len();
    if i >= n || cs[i] != '"' {
        return None;
    }
    match parse_string_body(cs, i + 1) {
        Some(p) => {
            proof {
                lemma_parse_string_advances(cs@, i as int + 1, Seq::empty());
            }
            Some(p)
        },
        None => None,
    }
}

/// Read the subset integer at `i`: its signed value and end.
pub fn sub_int_read(cs: &Vec<char>, i: usize) -> (r: Option<(i64, usize)>)
    requires
        i <= cs@.len(),
    ensures
        match r {
            Some(p) => {
                &&& spec_int_end(cs@, i as int) == p.1
                &&& spec_int_value(cs@, i as int) == p.0
                &&& i < p.1 <= cs@.len()
            },
            None => spec_int_end(cs@, i as int) == -1,
        },
{
    let n: usize = cs.len();
    if i >= n {
        return None;
    }
    let negative: bool = cs[i] == '-';
    let d0: usize = if negative {
        i + 1
    } else {
        i
    };
    let mut e: usize = d0;
    loop
        invariant_except_break
            d0 <= e <= n,
            n == cs@.len(),
            forall|m: int| d0 <= m < e ==> '0' <= cs@[m] && cs@[m] <= '9',
        ensures
            d0 <= e <= n,
            n == cs@.len(),
            forall|m: int| d0 <= m < e ==> '0' <= cs@[m] && cs@[m] <= '9',
            e == n || !('0' <= cs@[e as int] && cs@[e as int] <= '9'),
        decreases n - e,
    {
        if e == n {
            break;
        }
        let c: char = cs[e];
        if !('0' <= c && c <= '9') {
            break;
        }
        e += 1;
    }
    proof {
        lemma_digit_run_exact(cs@, d0 as int, e as int);
    }
    if e == d0 {
        return None;
    }
    if e < n && (cs[e] == '.' || cs[e] == 'e' || cs[e] == 'E') {
        return None;
    }
    let mut mag: i64 = 0;
    let mut j: usize = d0;
    while j < e
        invariant
            d0 <= j <= e <= n,
            n == cs@.len(),
            mag >= 0,
            i < n,
            negative == (cs@[i as int] == '-'),
            d0 == if negative { i + 1 } else { i as int },
            spec_digit_run_end(cs@, d0 as int) == e,
            e != d0,
            !(e < n && (cs@[e as int] == '.' || cs@[e as int] == 'e' || cs@[e as int] == 'E')),
            forall|m: int| d0 <= m < e ==> '0' <= cs@[m] && cs@[m] <= '9',
            spec_digits_read(cs@, d0 as int, e as int, 0) == spec_digits_read(
                cs@,
                j as int,
                e as int,
                mag as int,
            ),
        decreases e - j,
    {
        let c: char = cs[j];
        let d: i64 = ((c as u32) - ('0' as u32)) as i64;
        assert(d == cs@[j as int] as int - '0' as int);
        assert(0 <= d <= 9);
        if mag > (i64::MAX - d) / 10 {
            return None;
        }
        assert(mag * 10 + d <= i64::MAX) by (nonlinear_arith)
            requires
                0 <= mag,
                0 <= d <= 9,
                mag <= (i64::MAX - d) / 10,
        ;
        mag = mag * 10 + d;
        j += 1;
    }
    if negative {
        Some((-mag, e))
    } else {
        Some((mag, e))
    }
}

/// End of the subset value at `i`, under the given nesting budget.
pub fn sub_value_end(cs: &Vec<char>, i: usize, level: u32) -> (r: Option<usize>)
    requires
        i <= cs@.len(),
    ensures
        match r {
            Some(e) => spec_sub_value_end(
                cs@,
                i as int,
                level as nat,
                (cs@.len() + 1 - i) as nat,
            ) == e && i < e <= cs@.len(),
            None => spec_sub_value_end(cs@, i as int, level as nat, (cs@.len() + 1 - i) as nat)
                == -1,
        },
    decreases cs@.len() - i, 1int,
{
    let n: usize = cs.len();
    if i >= n {
        return None;
    }
    if cs[i] == '"' {
        return match sub_str_read(cs, i) {
            Some(p) => Some(p.1),
            None => None,
        };
    }
    if cs[i] == '{' {
        if level == 0 {
            return None;
        }
        if i + 1 < n && cs[i + 1] == '}' {
            return Some(i + 2);
        }
        return sub_members_end(cs, i + 1, level - 1);
    }
    match sub_int_read(cs, i) {
        Some(p) => Some(p.1),
        None => None,
    }
}

/// End of the subset member list starting at `i`, just past its
/// closing brace.
pub fn sub_members_end(cs: &Vec<char>, i: usize, vlevel: u32) -> (r: Option<usize>)
    requires
        i <= cs@.len(),
    ensures
        match r {
            Some(e) => spec_sub_members_end(
                cs@,
                i as int,
                vlevel as nat,
                (cs@.len() + 1 - i) as nat,
            ) == e && i < e <= cs@.len(),
            None => spec_sub_members_end(cs@, i as int, vlevel as nat, (cs@.len() + 1 - i) as nat)
                == -1,
        },
    decreases cs@.len() - i, 0int,
{
    let n: usize = cs.len();
    let ke: usize = match sub_str_read(cs, i) {
        Some(p) => p.1,
        None => {
            return None;
        },
    };
    if ke >= n || cs[ke] != ':' {
        return None;
    }
    let inner = sub_value_end(cs, ke + 1, vlevel);
    proof {
        lemma_sub_value_fuel(
            cs@,
            ke as int + 1,
            vlevel as nat,
            (cs@.len() + 1 - (ke + 1)) as nat,
            (cs@.len() - i) as nat,
        );
    }
    let ve: usize = match inner {
        Some(v) => v,
        None => {
            return None;
        },
    };
    if ve >= n {
        return None;
    }
    if cs[ve] == '}' {
        return Some(ve + 1);
    }
    if cs[ve] == ',' {
        let rest = sub_members_end(cs, ve + 1, vlevel);
        proof {
            lemma_sub_members_fuel(
                cs@,
                ve as int + 1,
                vlevel as nat,
                (cs@.len() + 1 - (ve + 1)) as nat,
                (cs@.len() - i) as nat,
            );
        }
        return rest;
    }
    None
}

/// Span of `key`'s value in the member list starting at `i`.
pub fn sub_member_value(cs: &Vec<char>, i: usize, key: &Vec<char>, vlevel: u32) -> (r: Option<
    (usize, usize),
>)
    requires
        i <= cs@.len(),
    ensures
        match r {
            Some(p) => spec_sub_member_value(
                cs@,
                i as int,
                key@,
                vlevel as nat,
                (cs@.len() + 1 - i) as nat,
            ) == Some((p.0 as int, p.1 as int)) && i < p.0 <= cs@.len() && p.0 <= p.1
                <= cs@.len(),
            None => spec_sub_member_value(
                cs@,
                i as int,
                key@,
                vlevel as nat,
                (cs@.len() + 1 - i) as nat,
            ) is None,
        },
    decreases cs@.len() - i,
{
    let n: usize = cs.len();
    let (content, ke) = match sub_str_read(cs, i) {
        Some(p) => p,
        None => {
            return None;
        },
    };
    if ke >= n || cs[ke] != ':' {
        return None;
    }
    let inner = sub_value_end(cs, ke + 1, vlevel);
    proof {
        lemma_sub_value_fuel(
            cs@,
            ke as int + 1,
            vlevel as nat,
            (cs@.len() + 1 - (ke + 1)) as nat,
            (cs@.len() - i) as nat,
        );
    }
    let ve: usize = match inner {
        Some(v) => v,
        None => {
            return None;
        },
    };
    if ve >= n {
        return None;
    }
    let key_matches: bool = if content.len() == key.len() {
        let same = crate::text::range_eq(&content, 0, key);
        proof {
            if same {
                assert(content@.subrange(0, key@.len() as int) =~= content@);
            } else {
                if content@ == key@ {
                    assert(content@.subrange(0, key@.len() as int) =~= key@);
                }
            }
        }
        same
    } else {
        false
    };
    if key_matches {
        return Some((ke + 1, ve));
    }
    if cs[ve] == ',' {
        let rest = sub_member_value(cs, ve + 1, key, vlevel);
        proof {
            lemma_sub_member_fuel(
                cs@,
                ve as int + 1,
                key@,
                vlevel as nat,
                (cs@.len() + 1 - (ve + 1)) as nat,
                (cs@.len() - i) as nat,
            );
        }
        return rest;
    }
    None
}

/// Enough fuel makes a member lookup fuel-independent.
pub proof fn lemma_obj_member_fuel(
    s: Seq<char>,
    obj: int,
    key: Seq<char>,
    vlevel: nat,
    f1: nat,
    f2: nat,
)
    requires
        0 <= obj,
        f1 >= s.len() - obj,
        f2 >= s.len() - obj,
    ensures
        spec_obj_member(s, obj, key, vlevel, f1) == spec_obj_member(s, obj, key, vlevel, f2),
{
    if 0 <= obj < s.len() && s[obj] == '{' && !(obj + 1 < s.len() && s[obj + 1] == '}') {
        lemma_sub_member_fuel(s, obj + 1, key, vlevel, f1, f2);
    }
}

/// Span of `key`'s value inside the object at `obj`.
pub fn obj_member(cs: &Vec<char>, obj: usize, key: &Vec<char>, vlevel: u32) -> (r: Option<
    (usize, usize),
>)
    requires
        obj <= cs@.len(),
    ensures
        match r {
            Some(p) => spec_obj_member(
                cs@,
                obj as int,
                key@,
                vlevel as nat,
                (cs@.len() + 1 - obj) as nat,
            ) == Some((p.0 as int, p.1 as int)) && p.0 <= p.1 <= cs@.len() && obj < p.0,
            None => spec_obj_member(
                cs@,
                obj as int,
                key@,
                vlevel as nat,
                (cs@.len() + 1 - obj) as nat,
            ) is None,
        },
{
    let n: usize = cs.len();
    if obj >= n || cs[obj] != '{' {
        return None;
    }
    if obj + 1 < n && cs[obj + 1] == '}' {
        return None;
    }
    let r = sub_member_value(cs, obj + 1, key, vlevel);
    proof {
        lemma_sub_member_fuel(
            cs@,
            obj as int + 1,
            key@,
            vlevel as nat,
            (cs@.len() + 1 - (obj + 1)) as nat,
            (cs@.len() + 1 - obj) as nat,
        );
    }
    r
}

/// Read the string leaf spanning `[a, b)`.
pub fn str_leaf(cs: &Vec<char>, a: usize, b: usize) -> (r: Option<Vec<char>>)
    requires
        a <= cs@.len(),
    ensures
        match r {
            Some(w) => spec_str_leaf(cs@, a as int, b as int) == Some(w@),
            None => spec_str_leaf(cs@, a as int, b as int) is None,
        },
{
    match sub_str_read(cs, a) {
        Some(p) => {
            if p.1 == b {
                Some(p.0)
            } else {
                None
            }
        },
        None => None,
    }
}

/// Read the 32-bit integer leaf spanning `[a, b)`.
pub fn u32_leaf(cs: &Vec<char>, a: usize, b: usize) -> (r: Option<u32>)
    requires
        a <= cs@.len(),
    ensures
        r == spec_u32_leaf(cs@, a as int, b as int),
{
    match sub_int_read(cs, a) {
        Some(p) => {
            if p.1 == b && p.0 >= 0 && p.0 <= 0xffffffffi64 {
                Some(p.0 as u32)
            } else {
                None
            }
        },
        None => None,
    }
}

} // verus!
