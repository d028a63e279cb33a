//! A small model of the JSON values that generated records may hold, and a
//! verified renderer from a record (an ordered list of fields) to JSON text.

use vstd::prelude::*;

verus! {

/// A generated field value. Records hold only these shapes: the generators
/// never produce nested arrays or objects.
#[derive(Clone, Debug, PartialEq)]
pub enum JsonValue {
    Null,
    Bool(bool),
    Int(u64),
    Str(String),
}

/// Relies on std's `String::push`: appends the given character to the end of
/// the string.
pub assume_specification[ String::push ](s: &mut String, ch: char)
    ensures
        final(s)@ == old(s)@.push(ch),
;

/// The character for a single decimal digit.
pub open spec fn digit_char(d: nat) -> char {
    if d == 0 { '0' }
    else if d == 1 { '1' }
    else if d == 2 { '2' }
    else if d == 3 { '3' }
    else if d == 4 { '4' }
    else if d == 5 { '5' }
    else if d == 6 { '6' }
    else if d == 7 { '7' }
    else if d == 8 { '8' }
    else { '9' }
}

/// The decimal representation of a natural number, most significant digit
/// first, with no leading zeros (a single `'0'` for zero).
pub open spec fn dec_rep(n: nat) -> Seq<char>
    decreases n,
{
    if n < 10 {
        seq![digit_char(n)]
    } else {
        dec_rep(n / 10).push(digit_char(n % 10))
    }
}

fn digit_to_char(d: u64) -> (c: char)
    requires
        d < 10,
    ensures
        c == digit_char(d as nat),
{
    if d == 0 { '0' }
    else if d == 1 { '1' }
    else if d == 2 { '2' }
    else if d == 3 { '3' }
    else if d == 4 { '4' }
    else if d == 5 { '5' }
    else if d == 6 { '6' }
    else if d == 7 { '7' }
    else if d == 8 { '8' }
    else { '9' }
}

/// Renders `n` in decimal, exactly as JSON renders an unsigned integer.
pub fn u64_to_string(n: u64) -> (s: String)
    ensures
        s@ == dec_rep(n as nat),
    decreases n,
{
    if n < 10 {
        let mut s = String::new();
        s.push(digit_to_char(n));
        s
    } else {
        let mut s = u64_to_string(n / 10);
        s.push(digit_to_char(n % 10));
        s
    }
}

/// How one character of a string is written inside a JSON string literal:
/// quote and backslash get a backslash escape, control characters get their
/// short escape where JSON has one and a `\u00XX` escape otherwise, and every
/// other character stands for itself.
pub open spec fn escape_char(c: char) -> Seq<char> {
    if c == '"' {
        seq!['\\', '"']
    } else if c == '\\' {
        seq!['\\', '\\']
    } else if c == '\u{8}' {
        seq!['\\', 'b']
    } else if c == '\u{c}' {
        seq!['\\', 'f']
    } else if c == '\n' {
        seq!['\\', 'n']
    } else if c == '\r' {
        seq!['\\', 'r']
    } else if c == '\t' {
        seq!['\\', 't']
    } else if (c as u32) < 32 {
        seq!['\\', 'u', '0', '0', hex_char(((c as u32) / 16) as nat), hex_char(((c as u32) % 16) as nat)]
    } else {
        seq![c]
    }
}

/// The lower-case hexadecimal digit for `d`.
pub open spec fn hex_char(d: nat) -> char {
    if d < 10 {
        digit_char(d)
    } else if d == 10 { 'a' }
    else if d == 11 { 'b' }
    else if d == 12 { 'c' }
    else if d == 13 { 'd' }
    else if d == 14 { 'e' }
    else { 'f' }
}

fn hex_to_char(d: u32) -> (c: char)
    requires
        d < 16,
    ensures
        c == hex_char(d as nat),
{
    if d < 10 {
        digit_to_char(d as u64)
    } else if d == 10 { 'a' }
    else if d == 11 { 'b' }
    else if d == 12 { 'c' }
    else if d == 13 { 'd' }
    else if d == 14 { 'e' }
    else { 'f' }
}

/// A whole string with every character escaped for JSON.
pub open spec fn escape_seq(s: Seq<char>) -> Seq<char>
    decreases s.len(),
{
    if s.len() == 0 {
        Seq::empty()
    } else {
        escape_char(s[0]) + escape_seq(s.drop_first())
    }
}

fn push_escaped_char(out: &mut String, c: char)
    ensures
        final(out)@ == old(out)@ + escape_char(c),
{
    if c == '"' {
        out.push('\\');
        out.push('"');
    } else if c == '\\' {
        out.push('\\');
        out.push('\\');
    } else if c == '\u{8}' {
        out.push('\\');
        out.push('b');
    } else if c == '\u{c}' {
        out.push('\\');
        out.push('f');
    } else if c == '\n' {
        out.push('\\');
        out.push('n');
    } else if c == '\r' {
        out.push('\\');
        out.push('r');
    } else if c == '\t' {
        out.push('\\');
        out.push('t');
    } else if (c as u32) < 32 {
        out.push('\\');
        out.push('u');
        out.push('0');
        out.push('0');
        out.push(hex_to_char((c as u32) / 16));
        out.push(hex_to_char((c as u32) % 16));
    } else {
        out.push(c);
    }
    proof {
        assert(final(out)@ =~= old(out)@ + escape_char(c));
    }
}

fn push_escaped(out: &mut String, s: &str, len: usize, i: usize)
    requires
        len == s@.len(),
        i <= len,
    ensures
        final(out)@ == old(out)@ + escape_seq(s@.skip(i as int)),
    decreases len - i,
{
    if i == len {
        proof {
            assert(s@.skip(i as int) =~= Seq::<char>::empty());
            assert(final(out)@ =~= old(out)@ + escape_seq(s@.skip(i as int)));
        }
    } else {
        let c = s.get_char(i);
        push_escaped_char(out, c);
        push_escaped(out, s, len, i + 1);
        proof {
            assert(s@.skip(i as int).drop_first() =~= s@.skip(i as int + 1));
            assert(s@.skip(i as int)[0] == c);
            assert(final(out)@ =~= old(out)@ + escape_seq(s@.skip(i as int)));
        }
    }
}

/// A JSON string literal: the escaped text between double quotes.
pub open spec fn render_string(s: Seq<char>) -> Seq<char> {
    seq!['"'] + escape_seq(s) + seq!['"']
}

fn push_json_string(out: &mut String, s: &str)
    ensures
        final(out)@ == old(out)@ + render_string(s@),
{
    out.push('"');
    let len = s.unicode_len();
    push_escaped(out, s, len, 0);
    out.push('"');
    proof {
        assert(s@.skip(0) =~= s@);
        assert(final(out)@ =~= old(out)@ + render_string(s@));
    }
}

/// The JSON text for one value.
pub open spec fn render_value(v: JsonValue) -> Seq<char> {
    match v {
        JsonValue::Null => seq!['n', 'u', 'l', 'l'],
        JsonValue::Bool(b) => if b {
            seq!['t', 'r', 'u', 'e']
        } else {
            seq!['f', 'a', 'l', 's', 'e']
        },
        JsonValue::Int(n) => dec_rep(n as nat),
        JsonValue::Str(s) => render_string(s@),
    }
}

fn push_value(out: &mut String, v: &JsonValue)
    ensures
        final(out)@ == old(out)@ + render_value(*v),
{
    match v {
        JsonValue::Null => {
            out.push('n');
            out.push('u');
            out.push('l');
            out.push('l');
        },
        JsonValue::Bool(b) => {
            if *b {
                out.push('t');
                out.push('r');
                out.push('u');
                out.push('e');
            } else {
                out.push('f');
                out.push('a');
                out.push('l');
                out.push('s');
                out.push('e');
            }
        },
        JsonValue::Int(n) => {
            let digits = u64_to_string(*n);
            out.append(digits.as_str());
        },
        JsonValue::Str(s) => {
            push_json_string(out, s.as_str());
        },
    }
    proof {
        assert(final(out)@ =~= old(out)@ + render_value(*v));
    }
}

/// The JSON text for one `"key":value` member.
pub open spec fn render_field(k: Seq<char>, v: JsonValue) -> Seq<char> {
    render_string(k) + seq![':'] + render_value(v)
}

/// The JSON text for a comma-separated run of members.
pub open spec fn render_fields(fs: Seq<(String, JsonValue)>) -> Seq<char>
    decreases fs.len(),
{
    if fs.len() == 0 {
        Seq::empty()
    } else if fs.len() == 1 {
        render_field(fs[0].0@, fs[0].1)
    } else {
        render_field(fs[0].0@, fs[0].1) + seq![','] + render_fields(fs.drop_first())
    }
}

/// The JSON text for a whole record: the members between braces.
pub open spec fn render_record(fs: Seq<(String, JsonValue)>) -> Seq<char> {
    seq!['{'] + render_fields(fs) + seq!['}']
}

fn push_fields(out: &mut String, fields: &Vec<(String, JsonValue)>, i: usize)
    requires
        i <= fields.len(),
    ensures
        final(out)@ == old(out)@ + render_fields(fields@.skip(i as int)),
    decreases fields.len() - i,
{
    if i == fields.len() {
        proof {
            assert(fields@.skip(i as int) =~= Seq::<(String, JsonValue)>::empty());
            assert(final(out)@ =~= old(out)@ + render_fields(fields@.skip(i as int)));
        }
    } else {
        push_json_string(out, fields[i].0.as_str());
        out.push(':');
        push_value(out, &fields[i].1);
        if i + 1 < fields.len() {
            out.push(',');
        }
        push_fields(out, fields, i + 1);
        proof {
            assert(fields@.skip(i as int).drop_first() =~= fields@.skip(i as int + 1));
            assert(fields@.skip(i as int)[0] == fields@[i as int]);
            assert(final(out)@ =~= old(out)@ + render_fields(fields@.skip(i as int)));
        }
    }
}

/// Renders a record as a single JSON object, members in record order, with
/// no added whitespace.
pub fn serialize_record(fields: &Vec<(String, JsonValue)>) -> (s: String)
    ensures
        s@ == render_record(fields@),
{
    let mut out = String::new();
    out.push('{');
    push_fields(&mut out, fields, 0);
    out.push('}');
    proof {
        assert(fields@.skip(0) =~= fields@);
        assert(out@ =~= render_record(fields@));
    }
    out
}

} // verus!
