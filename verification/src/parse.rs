//! The schema file grammar: a single JSON object whose keys are field names
//! and whose values are type-tag strings. The spec functions here define the
//! grammar as a deterministic recursive-descent parse over the character
//! sequence; the executable parser is proved to return exactly what they say.

use vstd::prelude::*;
use crate::schema::pairs_model;

verus! {

/// Relies on std's `char::from_u32`: returns the character with the given
/// code point for every value below the surrogate range or between the end
/// of the surrogate range and the largest code point, and `None` otherwise.
pub assume_specification[ char::from_u32 ](v: u32) -> (r: Option<char>)
    ensures
        (r is Some) == (v < 0xD800 || (0xE000 <= v && v <= 0x10FFFF)),
        r matches Some(c) ==> c == (v as char),
;

/// JSON whitespace.
pub open spec fn is_ws(c: char) -> bool {
    c == ' ' || c == '\t' || c == '\n' || c == '\r'
}

/// The first position at or after `i` that does not hold whitespace.
pub open spec fn sp_skip_ws(s: Seq<char>, i: int) -> int
    decreases s.len() - i,
{
    if 0 <= i < s.len() && is_ws(s[i]) {
        sp_skip_ws(s, i + 1)
    } else {
        i
    }
}

/// A hexadecimal digit, either case.
pub open spec fn is_hex_digit(c: char) -> bool {
    (48 <= c as u32 && c as u32 <= 57) || (97 <= c as u32 && c as u32 <= 102) || (65 <= c as u32
        && c as u32 <= 70)
}

/// The value of a hexadecimal digit.
pub open spec fn hex_val(c: char) -> int {
    if 48 <= c as u32 && c as u32 <= 57 {
        c as u32 - 48
    } else if 97 <= c as u32 && c as u32 <= 102 {
        c as u32 - 87
    } else {
        c as u32 - 55
    }
}

/// Four hexadecimal digits starting at `i`, as a code unit value.
pub open spec fn sp_hex4(s: Seq<char>, i: int) -> Option<int> {
    if 0 <= i && i + 4 <= s.len() && is_hex_digit(s[i]) && is_hex_digit(s[i + 1]) && is_hex_digit(
        s[i + 2],
    ) && is_hex_digit(s[i + 3]) {
        Some(hex_val(s[i]) * 4096 + hex_val(s[i + 1]) * 256 + hex_val(s[i + 2]) * 16 + hex_val(
            s[i + 3],
        ))
    } else {
        None
    }
}

/// An escape sequence whose backslash stands just before `i`: the character
/// it denotes and the position after it. A `\u` escape holding a high
/// surrogate must be followed by a `\u` escape holding a low surrogate; a
/// lone surrogate is rejected.
pub open spec fn sp_escape(s: Seq<char>, i: int) -> Option<(char, int)> {
    if i < 0 || i >= s.len() {
        None
    } else if s[i] == '"' {
        Some(('"', i + 1))
    } else if s[i] == '\\' {
        Some(('\\', i + 1))
    } else if s[i] == '/' {
        Some(('/', i + 1))
    } else if s[i] == 'b' {
        Some(('\u{8}', i + 1))
    } else if s[i] == 'f' {
        Some(('\u{c}', i + 1))
    } else if s[i] == 'n' {
        Some(('\n', i + 1))
    } else if s[i] == 'r' {
        Some(('\r', i + 1))
    } else if s[i] == 't' {
        Some(('\t', i + 1))
    } else if s[i] == 'u' {
        match sp_hex4(s, i + 1) {
            None => None,
            Some(v) => {
                if 0xD800 <= v < 0xDC00 {
                    if i + 7 <= s.len() && s[i + 5] == '\\' && s[i + 6] == 'u' {
                        match sp_hex4(s, i + 7) {
                            None => None,
                            Some(w) => {
                                if 0xDC00 <= w < 0xE000 {
                                    Some(
                                        (
                                            (((0x10000 + (v - 0xD800) * 0x400 + (w
                                                - 0xDC00)) as u32) as char),
                                            i + 11,
                                        ),
                                    )
                                } else {
                                    None
                                }
                            },
                        }
                    } else {
                        None
                    }
                } else if 0xDC00 <= v < 0xE000 {
                    None
                } else {
                    Some(((v as u32) as char, i + 5))
                }
            },
        }
    } else {
        None
    }
}

/// The body of a JSON string literal from `i` to its closing quote: the
/// text it denotes and the position after the quote. Control characters
/// must be escaped.
pub open spec fn sp_string_body(s: Seq<char>, i: int) -> Option<(Seq<char>, int)>
    decreases s.len() - i,
{
    if i < 0 || i >= s.len() {
        None
    } else if s[i] == '"' {
        Some((Seq::empty(), i + 1))
    } else if s[i] == '\\' {
        match sp_escape(s, i + 1) {
            None => None,
            Some((c, j)) => {
                if i + 1 < j <= s.len() {
                    match sp_string_body(s, j) {
                        None => None,
                        Some((t, e)) => Some((seq![c] + t, e)),
                    }
                } else {
                    None
                }
            },
        }
    } else if (s[i] as u32) < 32 {
        None
    } else {
        match sp_string_body(s, i + 1) {
            None => None,
            Some((t, e)) => Some((seq![s[i]] + t, e)),
        }
    }
}

/// A whole JSON string literal starting at `i`.
pub open spec fn sp_string(s: Seq<char>, i: int) -> Option<(Seq<char>, int)> {
    if 0 <= i < s.len() && s[i] == '"' {
        sp_string_body(s, i + 1)
    } else {
        None
    }
}

/// One `"name" : "tag"` member starting at `i`.
pub open spec fn sp_pair(s: Seq<char>, i: int) -> Option<((Seq<char>, Seq<char>), int)> {
    match sp_string(s, i) {
        None => None,
        Some((k, j)) => {
            let j2 = sp_skip_ws(s, j);
            if 0 <= j2 < s.len() && s[j2] == ':' {
                let j3 = sp_skip_ws(s, j2 + 1);
                match sp_string(s, j3) {
                    None => None,
                    Some((v, e)) => Some(((k, v), e)),
                }
            } else {
                None
            }
        },
    }
}

/// The rest of the member list after one member: either the closing brace,
/// or a comma and another member, and so on. Returns the members read and
/// the position after the closing brace.
pub open spec fn sp_members(s: Seq<char>, i: int) -> Option<(Seq<(Seq<char>, Seq<char>)>, int)>
    decreases s.len() - i,
{
    let j = sp_skip_ws(s, i);
    if 0 <= j < s.len() && s[j] == '}' {
        Some((Seq::empty(), j + 1))
    } else if 0 <= j < s.len() && s[j] == ',' {
        let j2 = sp_skip_ws(s, j + 1);
        match sp_pair(s, j2) {
            None => None,
            Some((p, e)) => {
                if i < e <= s.len() {
                    match sp_members(s, e) {
                        None => None,
                        Some((ps, f)) => Some((seq![p] + ps, f)),
                    }
                } else {
                    None
                }
            },
        }
    } else {
        None
    }
}

/// The whole schema text: one JSON object of string members, nothing but
/// whitespace around it. Returns the members in textual order.
pub open spec fn sp_schema(s: Seq<char>) -> Option<Seq<(Seq<char>, Seq<char>)>> {
    let i = sp_skip_ws(s, 0);
    if 0 <= i < s.len() && s[i] == '{' {
        let j = sp_skip_ws(s, i + 1);
        if 0 <= j < s.len() && s[j] == '}' {
            if sp_skip_ws(s, j + 1) == s.len() {
                Some(Seq::empty())
            } else {
                None
            }
        } else {
            match sp_pair(s, j) {
                None => None,
                Some((p, e)) => {
                    match sp_members(s, e) {
                        None => None,
                        Some((ps, f)) => {
                            if sp_skip_ws(s, f) == s.len() {
                                Some(seq![p] + ps)
                            } else {
                                None
                            }
                        },
                    }
                },
            }
        }
    } else {
        None
    }
}

fn ex_skip_ws(s: &str, n: usize, i: usize) -> (j: usize)
    requires
        n == s@.len(),
        i <= n,
    ensures
        j as int == sp_skip_ws(s@, i as int),
        i <= j <= n,
{
    let mut j = i;
    loop
        invariant
            n == s@.len(),
            i <= j <= n,
            sp_skip_ws(s@, i as int) == sp_skip_ws(s@, j as int),
        decreases n - j,
    {
        if j < n {
            let c = s.get_char(j);
            if c == ' ' || c == '\t' || c == '\n' || c == '\r' {
                j = j + 1;
                continue;
            }
        }
        return j;
    }
}

fn ex_hex_digit(c: char) -> (r: Option<u32>)
    ensures
        (r is Some) == is_hex_digit(c),
        r matches Some(v) ==> v as int == hex_val(c) && v < 16,
{
    let u = c as u32;
    if 48 <= u && u <= 57 {
        Some(u - 48)
    } else if 97 <= u && u <= 102 {
        Some(u - 87)
    } else if 65 <= u && u <= 70 {
        Some(u - 55)
    } else {
        None
    }
}

fn ex_hex4(s: &str, n: usize, i: usize) -> (r: Option<u32>)
    requires
        n == s@.len(),
    ensures
        (r is Some) == (sp_hex4(s@, i as int) is Some),
        r matches Some(v) ==> sp_hex4(s@, i as int) matches Some(w) && v as int == w && v
            < 0x10000,
{
    if n < 4 || i > n - 4 {
        return None;
    }
    let d0 = ex_hex_digit(s.get_char(i));
    let d1 = ex_hex_digit(s.get_char(i + 1));
    let d2 = ex_hex_digit(s.get_char(i + 2));
    let d3 = ex_hex_digit(s.get_char(i + 3));
    match (d0, d1, d2, d3) {
        (Some(a), Some(b), Some(c), Some(d)) => Some(a * 4096 + b * 256 + c * 16 + d),
        _ => None,
    }
}

fn ex_escape(s: &str, n: usize, i: usize) -> (r: Option<(char, usize)>)
    requires
        n == s@.len(),
    ensures
        (r is Some) == (sp_escape(s@, i as int) is Some),
        r matches Some(p) ==> sp_escape(s@, i as int) matches Some(q) && p.0 == q.0 && p.1 as int
            == q.1 && i < p.1 <= n,
{
    if i >= n {
        return None;
    }
    let c = s.get_char(i);
    if c == '"' {
        Some(('"', i + 1))
    } else if c == '\\' {
        Some(('\\', i + 1))
    } else if c == '/' {
        Some(('/', i + 1))
    } else if c == 'b' {
        Some(('\u{8}', i + 1))
    } else if c == 'f' {
        Some(('\u{c}', i + 1))
    } else if c == 'n' {
        Some(('\n', i + 1))
    } else if c == 'r' {
        Some(('\r', i + 1))
    } else if c == 't' {
        Some(('\t', i + 1))
    } else if c == 'u' {
        match ex_hex4(s, n, i + 1) {
            None => None,
            Some(v) => {
                if 0xD800 <= v && v < 0xDC00 {
                    if n >= 7 && i <= n - 7 && s.get_char(i + 5) == '\\' && s.get_char(i + 6)
                        == 'u' {
                        match ex_hex4(s, n, i + 7) {
                            None => None,
                            Some(w) => {
                                if 0xDC00 <= w && w < 0xE000 {
                                    let scalar: u32 = 0x10000 + (v - 0xD800) * 0x400 + (w
                                        - 0xDC00);
                                    let c2 = char::from_u32(scalar).unwrap();
                                    Some((c2, i + 11))
                                } else {
                                    None
                                }
                            },
                        }
                    } else {
                        None
                    }
                } else if 0xDC00 <= v && v < 0xE000 {
                    None
                } else {
                    let c2 = char::from_u32(v).unwrap();
                    Some((c2, i + 5))
                }
            },
        }
    } else {
        None
    }
}

fn ex_string_body(s: &str, n: usize, i: usize, out: &mut String) -> (r: Option<usize>)
    requires
        n == s@.len(),
    ensures
        (r is Some) == (sp_string_body(s@, i as int) is Some),
        r matches Some(e) ==> sp_string_body(s@, i as int) matches Some(p) && e as int == p.1 && i
            < e <= n && final(out)@ == old(out)@ + p.0,
    decreases n - i,
{
    if i >= n {
        return None;
    }
    let c = s.get_char(i);
    if c == '"' {
        proof {
            assert(final(out)@ =~= old(out)@ + Seq::<char>::empty());
        }
        Some(i + 1)
    } else if c == '\\' {
        match ex_escape(s, n, i + 1) {
            None => None,
            Some((c2, j)) => {
                if i + 1 < j && j <= n {
                    let ghost mid = out@;
                    out.push(c2);
                    match ex_string_body(s, n, j, out) {
                        None => None,
                        Some(e) => {
                            proof {
                                let p = sp_string_body(s@, j as int).unwrap();
                                assert(final(out)@ =~= old(out)@ + (seq![c2] + p.0));
                            }
                            Some(e)
                        },
                    }
                } else {
                    None
                }
            },
        }
    } else if (c as u32) < 32 {
        None
    } else {
        out.push(c);
        match ex_string_body(s, n, i + 1, out) {
            None => None,
            Some(e) => {
                proof {
                    let p = sp_string_body(s@, i as int + 1).unwrap();
                    assert(final(out)@ =~= old(out)@ + (seq![c] + p.0));
                }
                Some(e)
            },
        }
    }
}

fn ex_string(s: &str, n: usize, i: usize) -> (r: Option<(String, usize)>)
    requires
        n == s@.len(),
    ensures
        (r is Some) == (sp_string(s@, i as int) is Some),
        r matches Some(p) ==> sp_string(s@, i as int) matches Some(q) && p.0@ == q.0 && p.1 as int
            == q.1 && i < p.1 <= n,
{
    if i < n && s.get_char(i) == '"' {
        let mut out = String::new();
        match ex_string_body(s, n, i + 1, &mut out) {
            None => None,
            Some(e) => Some((out, e)),
        }
    } else {
        None
    }
}

fn ex_pair(s: &str, n: usize, i: usize) -> (r: Option<(String, String, usize)>)
    requires
        n == s@.len(),
        i <= n,
    ensures
        (r is Some) == (sp_pair(s@, i as int) is Some),
        r matches Some(p) ==> sp_pair(s@, i as int) matches Some(q) && p.0@ == q.0.0 && p.1@
            == q.0.1 && p.2 as int == q.1 && i < p.2 <= n,
{
    match ex_string(s, n, i) {
        None => None,
        Some((k, j)) => {
            let j2 = ex_skip_ws(s, n, j);
            if j2 < n && s.get_char(j2) == ':' {
                let j3 = ex_skip_ws(s, n, j2 + 1);
                match ex_string(s, n, j3) {
                    None => None,
                    Some((v, e)) => Some((k, v, e)),
                }
            } else {
                None
            }
        },
    }
}

fn ex_members(s: &str, n: usize, i: usize, pairs: &mut Vec<(String, String)>) -> (r: Option<usize>)
    requires
        n == s@.len(),
        i <= n,
    ensures
        (r is Some) == (sp_members(s@, i as int) is Some),
        r matches Some(f) ==> sp_members(s@, i as int) matches Some(q) && f as int == q.1 && f <= n
            && pairs_model(final(pairs)@) == pairs_model(old(pairs)@) + q.0,
    decreases n - i,
{
    let j = ex_skip_ws(s, n, i);
    if j < n && s.get_char(j) == '}' {
        proof {
            assert(pairs_model(final(pairs)@) =~= pairs_model(old(pairs)@) + Seq::<(
                Seq<char>,
                Seq<char>,
            )>::empty());
        }
        Some(j + 1)
    } else if j < n && s.get_char(j) == ',' {
        let j2 = ex_skip_ws(s, n, j + 1);
        match ex_pair(s, n, j2) {
            None => None,
            Some((k, v, e)) => {
                if i < e && e <= n {
                    let ghost mid = pairs@;
                    let ghost pq = sp_pair(s@, j2 as int).unwrap().0;
                    pairs.push((k, v));
                    proof {
                        assert(pairs_model(pairs@) =~= pairs_model(mid) + seq![pq]);
                    }
                    match ex_members(s, n, e, pairs) {
                        None => None,
                        Some(f) => {
                            proof {
                                let q = sp_members(s@, e as int).unwrap();
                                assert(pairs_model(final(pairs)@) =~= pairs_model(old(pairs)@) + (
                                seq![pq] + q.0));
                            }
                            Some(f)
                        },
                    }
                } else {
                    None
                }
            },
        }
    } else {
        None
    }
}

/// Parses the schema text into its raw name/tag pairs, in textual order:
/// exactly the members that `sp_schema` reads, or nothing when the text is
/// not a single JSON object of string members.
pub fn parse_pairs(s: &str) -> (r: Option<Vec<(String, String)>>)
    ensures
        (r is Some) == (sp_schema(s@) is Some),
        r matches Some(v) ==> sp_schema(s@) matches Some(ps) && pairs_model(v@) == ps,
{
    let n = s.unicode_len();
    let i = ex_skip_ws(s, n, 0);
    if i < n && s.get_char(i) == '{' {
        let j = ex_skip_ws(s, n, i + 1);
        if j < n && s.get_char(j) == '}' {
            if ex_skip_ws(s, n, j + 1) == n {
                let v: Vec<(String, String)> = Vec::new();
                proof {
                    assert(pairs_model(v@) =~= Seq::<(Seq<char>, Seq<char>)>::empty());
                }
                Some(v)
            } else {
                None
            }
        } else {
            match ex_pair(s, n, j) {
                None => None,
                Some((k, val, e)) => {
                    let ghost pq = sp_pair(s@, j as int).unwrap().0;
                    let mut v: Vec<(String, String)> = Vec::new();
                    v.push((k, val));
                    proof {
                        assert(pairs_model(v@) =~= seq![pq]);
                    }
                    match ex_members(s, n, e, &mut v) {
                        None => None,
                        Some(f) => {
                            if ex_skip_ws(s, n, f) == n {
                                proof {
                                    let q = sp_members(s@, e as int).unwrap();
                                    assert(pairs_model(v@) =~= seq![pq] + q.0);
                                }
                                Some(v)
                            } else {
                                None
                            }
                        },
                    }
                },
            }
        }
    } else {
        None
    }
}

} // verus!
