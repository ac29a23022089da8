//! Decoder for the control protocol's command frames.
//!
//! A frame is the text between two sentinel bytes on a control
//! connection.  Its grammar: a tagged object carrying one of the
//! five command names and its associated fields, with whitespace
//! allowed between tokens.  The members of every object may come in
//! any order, each exactly once; strings are quoted with the escapes
//! `\" \\ \/ \n \t \r` and `\u00XX`; numbers are plain decimal
//! `u32`.  The grammar is deliberately strict where strictness
//! cannot break a client that sends what the protocol defines:
//! unknown or repeated members are refused, the two unit commands
//! are written as quoted strings only, and code points above `00FF`
//! must stand literally rather than as escapes.  The specification
//! functions in this module *are* the grammar; each executable
//! parser returns exactly what its specification function denotes.

use vstd::prelude::*;

use crate::config::{AppConfigV, Rect};

verus! {

/// Protocol whitespace.
pub open spec fn is_ws(c: char) -> bool {
    c == ' ' || c == '\n' || c == '\t' || c == '\r'
}

/// The first position at or after `i` that does not hold whitespace.
pub open spec fn spec_skip_ws(s: Seq<char>, i: int) -> int
    decreases s.len() - i,
{
    if 0 <= i < s.len() && is_ws(s[i]) {
        spec_skip_ws(s, i + 1)
    } else {
        i
    }
}

fn skip_ws(v: &Vec<char>, i: usize) -> (r: usize)
    requires
        i <= v@.len(),
    ensures
        r as int == spec_skip_ws(v@, i as int),
        i <= r <= v@.len(),
    decreases v@.len() - i,
{
    if i < v.len() {
        let c = v[i];
        if c == ' ' || c == '\n' || c == '\t' || c == '\r' {
            return skip_ws(v, i + 1);
        }
    }
    i
}

/// `Some(j)` when `lit` occurs verbatim at `i`, `j` just after it.
pub open spec fn spec_expect(s: Seq<char>, i: int, lit: Seq<char>) -> Option<int> {
    if 0 <= i && i + lit.len() <= s.len() && s.subrange(i, i + lit.len() as int) == lit {
        Some(i + lit.len() as int)
    } else {
        None
    }
}

fn expect_lit(v: &Vec<char>, i: usize, lit: &str) -> (r: Option<usize>)
    requires
        i <= v@.len(),
    ensures
        match r {
            Some(j) => spec_expect(v@, i as int, lit@) == Some(j as int) && i <= j <= v@.len(),
            None => spec_expect(v@, i as int, lit@) is None,
        },
{
    let n = lit.unicode_len();
    let len = v.len();
    if n > len - i {
        proof {
            assert(i + lit@.len() > v@.len());
        }
        return None;
    }
    let mut j: usize = 0;
    while j < n
        invariant
            n == lit@.len(),
            len == v@.len(),
            i + n <= len,
            j <= n,
            forall|k: int| 0 <= k < j ==> v@[i + k] == lit@[k],
        decreases n - j,
    {
        if v[i + j] != lit.get_char(j) {
            proof {
                let sub = v@.subrange(i as int, i + lit@.len() as int);
                assert(sub[j as int] == v@[i + j]);
                assert(sub != lit@);
            }
            return None;
        }
        j += 1;
    }
    proof {
        assert(v@.subrange(i as int, i + lit@.len() as int) =~= lit@);
    }
    Some(i + n)
}

/// Decimal digit.
pub open spec fn is_digit(c: char) -> bool {
    48 <= c as u32 <= 57
}

/// Numeric value of a digit character.
pub open spec fn digit_val(c: char) -> u32 {
    (c as u32 - 48) as u32
}

/// Hexadecimal digit, either case.
pub open spec fn is_hex_digit(c: char) -> bool {
    is_digit(c) || 97 <= c as u32 <= 102 || 65 <= c as u32 <= 70
}

/// Numeric value of a hexadecimal digit character.
pub open spec fn hex_digit_val(c: char) -> u32 {
    if is_digit(c) {
        digit_val(c)
    } else if 97 <= c as u32 <= 102 {
        (c as u32 - 87) as u32
    } else {
        (c as u32 - 55) as u32
    }
}

/// Digits from `i` folded onto `acc`, failing on `u32` overflow;
/// stops at the first non-digit.
pub open spec fn spec_parse_num_rec(s: Seq<char>, i: int, acc: u32) -> Option<(u32, int)>
    decreases s.len() - i,
{
    if 0 <= i < s.len() && is_digit(s[i]) {
        if acc as int * 10 + digit_val(s[i]) as int <= u32::MAX as int {
            spec_parse_num_rec(s, i + 1, (acc as int * 10 + digit_val(s[i]) as int) as u32)
        } else {
            None
        }
    } else {
        Some((acc, i))
    }
}

/// A decimal `u32` at `i`: at least one digit, no sign, no leading
/// zero (a lone `0` is the only number starting with `0`), value
/// within `u32` range.
pub open spec fn spec_parse_u32(s: Seq<char>, i: int) -> Option<(u32, int)> {
    if 0 <= i < s.len() && is_digit(s[i]) {
        if s[i] == '0' {
            if i + 1 < s.len() && is_digit(s[i + 1]) {
                None
            } else {
                Some((0, i + 1))
            }
        } else {
            spec_parse_num_rec(s, i, 0)
        }
    } else {
        None
    }
}

fn parse_num_rec(v: &Vec<char>, i: usize, acc: u32) -> (r: Option<(u32, usize)>)
    requires
        i <= v@.len(),
    ensures
        match r {
            Some(p) => spec_parse_num_rec(v@, i as int, acc) == Some((p.0, p.1 as int)) && i <= p.1
                <= v@.len() && ((i as int) < v@.len() && is_digit(v@[i as int]) ==> i < p.1),
            None => spec_parse_num_rec(v@, i as int, acc) is None,
        },
    decreases v@.len() - i,
{
    if i < v.len() {
        let c = v[i];
        let cu = c as u32;
        if 48 <= cu && cu <= 57 {
            let d = cu - 48;
            let wide: u64 = acc as u64 * 10 + d as u64;
            if wide <= u32::MAX as u64 {
                return parse_num_rec(v, i + 1, wide as u32);
            } else {
                return None;
            }
        }
    }
    Some((acc, i))
}

fn parse_u32_at(v: &Vec<char>, i: usize) -> (r: Option<(u32, usize)>)
    requires
        i <= v@.len(),
    ensures
        match r {
            Some(p) => spec_parse_u32(v@, i as int) == Some((p.0, p.1 as int)) && i < p.1
                <= v@.len(),
            None => spec_parse_u32(v@, i as int) is None,
        },
{
    if i < v.len() {
        let c = v[i];
        let cu = c as u32;
        if 48 <= cu && cu <= 57 {
            if c == '0' {
                if i + 1 < v.len() {
                    let c2 = v[i + 1] as u32;
                    if 48 <= c2 && c2 <= 57 {
                        return None;
                    }
                }
                return Some((0, i + 1));
            }
            return parse_num_rec(v, i, 0);
        }
    }
    None
}

/// Body of a quoted string from `i` (just after the opening quote),
/// accumulating decoded characters onto `acc`; consumes the closing
/// quote.  Knows the six short escapes and `\u00XX`; raw control
/// characters and unknown escapes are refused.
pub open spec fn spec_parse_str_rec(s: Seq<char>, i: int, acc: Seq<char>) -> Option<
    (Seq<char>, int),
>
    decreases s.len() - i,
{
    if !(0 <= i < s.len()) {
        None
    } else if s[i] == '"' {
        Some((acc, i + 1))
    } else if s[i] == '\\' {
        if i + 1 < s.len() {
            let e = s[i + 1];
            if e == '"' {
                spec_parse_str_rec(s, i + 2, acc.push('"'))
            } else if e == '\\' {
                spec_parse_str_rec(s, i + 2, acc.push('\\'))
            } else if e == '/' {
                spec_parse_str_rec(s, i + 2, acc.push('/'))
            } else if e == 'n' {
                spec_parse_str_rec(s, i + 2, acc.push('\n'))
            } else if e == 't' {
                spec_parse_str_rec(s, i + 2, acc.push('\t'))
            } else if e == 'r' {
                spec_parse_str_rec(s, i + 2, acc.push('\r'))
            } else if e == 'u' {
                if i + 6 <= s.len() && s[i + 2] == '0' && s[i + 3] == '0' && is_hex_digit(s[i + 4])
                    && is_hex_digit(s[i + 5]) {
                    let code = hex_digit_val(s[i + 4]) * 16 + hex_digit_val(s[i + 5]);
                    spec_parse_str_rec(s, i + 6, acc.push((code as u8) as char))
                } else {
                    None
                }
            } else {
                None
            }
        } else {
            None
        }
    } else if (s[i] as u32) < 32 {
        None
    } else {
        spec_parse_str_rec(s, i + 1, acc.push(s[i]))
    }
}

/// A quoted string at `i`.
pub open spec fn spec_parse_string(s: Seq<char>, i: int) -> Option<(Seq<char>, int)> {
    if 0 <= i < s.len() && s[i] == '"' {
        spec_parse_str_rec(s, i + 1, Seq::empty())
    } else {
        None
    }
}

/// Value of a hexadecimal digit character, if it is one.
fn hex_val_of(c: char) -> (r: Option<u32>)
    ensures
        match r {
            Some(d) => is_hex_digit(c) && hex_digit_val(c) == d && d <= 15,
            None => !is_hex_digit(c),
        },
{
    let cu = c as u32;
    if 48 <= cu && cu <= 57 {
        Some(cu - 48)
    } else if 97 <= cu && cu <= 102 {
        Some(cu - 87)
    } else if 65 <= cu && cu <= 70 {
        Some(cu - 55)
    } else {
        None
    }
}

fn parse_str_rec(v: &Vec<char>, i: usize, acc: Vec<char>) -> (r: Option<(Vec<char>, usize)>)
    requires
        i <= v@.len(),
    ensures
        match r {
            Some(p) => spec_parse_str_rec(v@, i as int, acc@) == Some((p.0@, p.1 as int)) && i
                < p.1 <= v@.len(),
            None => spec_parse_str_rec(v@, i as int, acc@) is None,
        },
    decreases v@.len() - i,
{
    if i >= v.len() {
        return None;
    }
    let c = v[i];
    if c == '"' {
        return Some((acc, i + 1));
    }
    if c == '\\' {
        if i + 1 < v.len() {
            let e = v[i + 1];
            let mut acc2 = acc;
            if e == '"' {
                acc2.push('"');
            } else if e == '\\' {
                acc2.push('\\');
            } else if e == '/' {
                acc2.push('/');
            } else if e == 'n' {
                acc2.push('\n');
            } else if e == 't' {
                acc2.push('\t');
            } else if e == 'r' {
                acc2.push('\r');
            } else if e == 'u' {
                if v.len() - i >= 6 && v[i + 2] == '0' && v[i + 3] == '0' {
                    let hi = hex_val_of(v[i + 4]);
                    let lo = hex_val_of(v[i + 5]);
                    match (hi, lo) {
                        (Some(h), Some(l)) => {
                            acc2.push(((h * 16 + l) as u8) as char);
                            return parse_str_rec(v, i + 6, acc2);
                        },
                        _ => {
                            return None;
                        },
                    }
                }
                return None;
            } else {
                return None;
            }
            return parse_str_rec(v, i + 2, acc2);
        }
        return None;
    }
    if (c as u32) < 32 {
        return None;
    }
    let mut acc2 = acc;
    acc2.push(c);
    parse_str_rec(v, i + 1, acc2)
}

fn parse_string_at(v: &Vec<char>, i: usize) -> (r: Option<(Vec<char>, usize)>)
    requires
        i <= v@.len(),
    ensures
        match r {
            Some(p) => spec_parse_string(v@, i as int) == Some((p.0@, p.1 as int)) && i < p.1
                <= v@.len(),
            None => spec_parse_string(v@, i as int) is None,
        },
{
    if i < v.len() {
        let c = v[i];
        if c == '"' {
            return parse_str_rec(v, i + 1, Vec::new());
        }
    }
    None
}

/// `Some(j)`: `ws lit ws ':'` stands at `i`, `j` just after the colon.
pub open spec fn spec_parse_field_prefix(s: Seq<char>, i: int, lit: Seq<char>) -> Option<int> {
    let j0 = spec_skip_ws(s, i);
    match spec_expect(s, j0, lit) {
        None => None,
        Some(j1) => {
            let j2 = spec_skip_ws(s, j1);
            if 0 <= j2 < s.len() && s[j2] == ':' {
                Some(j2 + 1)
            } else {
                None
            }
        },
    }
}

fn parse_field_prefix(v: &Vec<char>, i: usize, lit: &str) -> (r: Option<usize>)
    requires
        i <= v@.len(),
    ensures
        match r {
            Some(j) => spec_parse_field_prefix(v@, i as int, lit@) == Some(j as int) && i <= j
                <= v@.len(),
            None => spec_parse_field_prefix(v@, i as int, lit@) is None,
        },
{
    let j0 = skip_ws(v, i);
    match expect_lit(v, j0, lit) {
        None => None,
        Some(j1) => {
            let j2 = skip_ws(v, j1);
            if j2 < v.len() && v[j2] == ':' {
                Some(j2 + 1)
            } else {
                None
            }
        },
    }
}

/// A `"name": number` field: the prefix, then a decimal `u32`.
pub open spec fn spec_parse_u32_field(s: Seq<char>, i: int, lit: Seq<char>) -> Option<(u32, int)> {
    match spec_parse_field_prefix(s, i, lit) {
        None => None,
        Some(j) => spec_parse_u32(s, spec_skip_ws(s, j)),
    }
}

fn parse_u32_field(v: &Vec<char>, i: usize, lit: &str) -> (r: Option<(u32, usize)>)
    requires
        i <= v@.len(),
    ensures
        match r {
            Some(p) => spec_parse_u32_field(v@, i as int, lit@) == Some((p.0, p.1 as int)) && p.1
                <= v@.len(),
            None => spec_parse_u32_field(v@, i as int, lit@) is None,
        },
{
    match parse_field_prefix(v, i, lit) {
        None => None,
        Some(j) => parse_u32_at(v, skip_ws(v, j)),
    }
}

/// One rectangle member, then the rest of the object: the four
/// members may come in any order, each exactly once.
pub open spec fn spec_parse_rect_members(
    s: Seq<char>,
    i: int,
    x: Option<u32>,
    y: Option<u32>,
    w: Option<u32>,
    h: Option<u32>,
) -> Option<(Rect, int)>
    decreases s.len() - i, 1int,
{
    match spec_parse_u32_field(s, i, "\"height\""@) {
        Some((value, a)) => if h is Some {
            None
        } else {
            spec_parse_rect_tail(s, i, a, x, y, w, Some(value))
        },
        None => match spec_parse_u32_field(s, i, "\"width\""@) {
            Some((value, a)) => if w is Some {
                None
            } else {
                spec_parse_rect_tail(s, i, a, x, y, Some(value), h)
            },
            None => match spec_parse_u32_field(s, i, "\"x\""@) {
                Some((value, a)) => if x is Some {
                    None
                } else {
                    spec_parse_rect_tail(s, i, a, Some(value), y, w, h)
                },
                None => match spec_parse_u32_field(s, i, "\"y\""@) {
                    Some((value, a)) => if y is Some {
                        None
                    } else {
                        spec_parse_rect_tail(s, i, a, x, Some(value), w, h)
                    },
                    None => None,
                },
            },
        },
    }
}

/// After one rectangle member: a comma and further members, or the
/// closing brace once every member has appeared.
pub open spec fn spec_parse_rect_tail(
    s: Seq<char>,
    i: int,
    a: int,
    x: Option<u32>,
    y: Option<u32>,
    w: Option<u32>,
    h: Option<u32>,
) -> Option<(Rect, int)>
    decreases s.len() - i, 0int,
{
    let a1 = spec_skip_ws(s, a);
    if 0 <= a1 < s.len() && s[a1] == ',' && i < a1 + 1 {
        spec_parse_rect_members(s, a1 + 1, x, y, w, h)
    } else if 0 <= a1 < s.len() && s[a1] == '}' {
        match (x, y, w, h) {
            (Some(xv), Some(yv), Some(wv), Some(hv)) => Some(
                (Rect { x: xv, y: yv, width: wv, height: hv }, a1 + 1),
            ),
            _ => None,
        }
    } else {
        None
    }
}

/// A rectangle object: `height`, `width`, `x` and `y` members, in
/// any order.
pub open spec fn spec_parse_rect(s: Seq<char>, i: int) -> Option<(Rect, int)> {
    if 0 <= i < s.len() && s[i] == '{' {
        spec_parse_rect_members(s, i + 1, None, None, None, None)
    } else {
        None
    }
}

fn parse_rect_members(
    v: &Vec<char>,
    i: usize,
    x: Option<u32>,
    y: Option<u32>,
    w: Option<u32>,
    h: Option<u32>,
) -> (r: Option<(Rect, usize)>)
    requires
        i <= v@.len(),
    ensures
        match r {
            Some(p) => spec_parse_rect_members(v@, i as int, x, y, w, h) == Some(
                (p.0, p.1 as int),
            ) && p.1 <= v@.len(),
            None => spec_parse_rect_members(v@, i as int, x, y, w, h) is None,
        },
    decreases v@.len() - i, 1int,
{
    if let Some((value, a)) = parse_u32_field(v, i, "\"height\"") {
        if h.is_some() {
            return None;
        }
        return parse_rect_tail(v, i, a, x, y, w, Some(value));
    }
    if let Some((value, a)) = parse_u32_field(v, i, "\"width\"") {
        if w.is_some() {
            return None;
        }
        return parse_rect_tail(v, i, a, x, y, Some(value), h);
    }
    if let Some((value, a)) = parse_u32_field(v, i, "\"x\"") {
        if x.is_some() {
            return None;
        }
        return parse_rect_tail(v, i, a, Some(value), y, w, h);
    }
    if let Some((value, a)) = parse_u32_field(v, i, "\"y\"") {
        if y.is_some() {
            return None;
        }
        return parse_rect_tail(v, i, a, x, Some(value), w, h);
    }
    None
}

fn parse_rect_tail(
    v: &Vec<char>,
    i: usize,
    a: usize,
    x: Option<u32>,
    y: Option<u32>,
    w: Option<u32>,
    h: Option<u32>,
) -> (r: Option<(Rect, usize)>)
    requires
        i <= v@.len(),
        a <= v@.len(),
    ensures
        match r {
            Some(p) => spec_parse_rect_tail(v@, i as int, a as int, x, y, w, h) == Some(
                (p.0, p.1 as int),
            ) && p.1 <= v@.len(),
            None => spec_parse_rect_tail(v@, i as int, a as int, x, y, w, h) is None,
        },
    decreases v@.len() - i, 0int,
{
    let a1 = skip_ws(v, a);
    if a1 < v.len() && v[a1] == ',' && i < a1 + 1 {
        parse_rect_members(v, a1 + 1, x, y, w, h)
    } else if a1 < v.len() && v[a1] == '}' {
        match (x, y, w, h) {
            (Some(xv), Some(yv), Some(wv), Some(hv)) => Some(
                (Rect { x: xv, y: yv, width: wv, height: hv }, a1 + 1),
            ),
            _ => None,
        }
    } else {
        None
    }
}

fn parse_rect_at(v: &Vec<char>, i: usize) -> (r: Option<(Rect, usize)>)
    requires
        i <= v@.len(),
    ensures
        match r {
            Some(p) => spec_parse_rect(v@, i as int) == Some((p.0, p.1 as int)) && p.1 <= v@.len(),
            None => spec_parse_rect(v@, i as int) is None,
        },
{
    if i < v.len() && v[i] == '{' {
        parse_rect_members(v, i + 1, None, None, None, None)
    } else {
        None
    }
}

/// The string views of a vector of strings.
pub open spec fn strs_view(v: Seq<String>) -> Seq<Seq<char>> {
    Seq::new(v.len(), |k: int| v[k]@)
}

/// Items of a string array after the opening bracket: one or more
/// quoted strings separated by commas, then the closing bracket.
pub open spec fn spec_parse_args_items(s: Seq<char>, i: int, acc: Seq<Seq<char>>) -> Option<
    (Seq<Seq<char>>, int),
>
    decreases s.len() - i,
{
    let j0 = spec_skip_ws(s, i);
    match spec_parse_string(s, j0) {
        None => None,
        Some((item, j1)) => {
            let j2 = spec_skip_ws(s, j1);
            if 0 <= j2 < s.len() && s[j2] == ']' {
                Some((acc.push(item), j2 + 1))
            } else if 0 <= j2 < s.len() && s[j2] == ',' && i < j2 + 1 {
                spec_parse_args_items(s, j2 + 1, acc.push(item))
            } else {
                None
            }
        },
    }
}

fn parse_args_items(v: &Vec<char>, i: usize, acc: Vec<String>) -> (r: Option<(Vec<String>, usize)>)
    requires
        i <= v@.len(),
    ensures
        match r {
            Some(p) => spec_parse_args_items(v@, i as int, strs_view(acc@)) == Some(
                (strs_view(p.0@), p.1 as int),
            ) && p.1 <= v@.len(),
            None => spec_parse_args_items(v@, i as int, strs_view(acc@)) is None,
        },
    decreases v@.len() - i,
{
    let ghost acc0 = acc@;
    let j0 = skip_ws(v, i);
    let (item, j1) = match parse_string_at(v, j0) {
        None => return None,
        Some(p) => p,
    };
    let j2 = skip_ws(v, j1);
    let mut acc2 = acc;
    acc2.push(crate::text::chars_to_string(&item));
    proof {
        assert(strs_view(acc2@) =~= strs_view(acc0).push(item@));
    }
    if j2 < v.len() && v[j2] == ']' {
        Some((acc2, j2 + 1))
    } else if j2 < v.len() && v[j2] == ',' && i < j2 + 1 {
        parse_args_items(v, j2 + 1, acc2)
    } else {
        None
    }
}

/// A string array at `i`: `[]`, or `[` items `]`.
pub open spec fn spec_parse_args(s: Seq<char>, i: int) -> Option<(Seq<Seq<char>>, int)> {
    if 0 <= i < s.len() && s[i] == '[' {
        let j = spec_skip_ws(s, i + 1);
        if 0 <= j < s.len() && s[j] == ']' {
            Some((Seq::empty(), j + 1))
        } else {
            spec_parse_args_items(s, i + 1, Seq::empty())
        }
    } else {
        None
    }
}

fn parse_args_at(v: &Vec<char>, i: usize) -> (r: Option<(Vec<String>, usize)>)
    requires
        i <= v@.len(),
    ensures
        match r {
            Some(p) => spec_parse_args(v@, i as int) == Some((strs_view(p.0@), p.1 as int)) && p.1
                <= v@.len(),
            None => spec_parse_args(v@, i as int) is None,
        },
{
    if !(i < v.len() && v[i] == '[') {
        return None;
    }
    let j = skip_ws(v, i + 1);
    if j < v.len() && v[j] == ']' {
        proof {
            assert(strs_view(Seq::<String>::empty()) =~= Seq::<Seq<char>>::empty());
        }
        Some((Vec::new(), j + 1))
    } else {
        proof {
            assert(strs_view(Seq::<String>::empty()) =~= Seq::<Seq<char>>::empty());
        }
        parse_args_items(v, i + 1, Vec::new())
    }
}

/// The string views of an optional argument list.
pub open spec fn opt_strs_view(o: Option<Vec<String>>) -> Option<Seq<Seq<char>>> {
    match o {
        Some(v) => Some(strs_view(v@)),
        None => None,
    }
}

/// The character view of an optional character vector.
pub open spec fn opt_chars_view(o: Option<Vec<char>>) -> Option<Seq<char>> {
    match o {
        Some(v) => Some(v@),
        None => None,
    }
}

/// One configuration member, then the rest of the object: `area`,
/// `args` and `executable`, in any order, each exactly once.
pub open spec fn spec_parse_config_members(
    s: Seq<char>,
    i: int,
    area: Option<Rect>,
    args: Option<Seq<Seq<char>>>,
    exe: Option<Seq<char>>,
) -> Option<(AppConfigV, int)>
    decreases s.len() - i, 1int,
{
    match spec_parse_field_prefix(s, i, "\"area\""@) {
        Some(j) => if area is Some {
            None
        } else {
            match spec_parse_rect(s, spec_skip_ws(s, j)) {
                None => None,
                Some((value, a)) => spec_parse_config_tail(s, i, a, Some(value), args, exe),
            }
        },
        None => match spec_parse_field_prefix(s, i, "\"args\""@) {
            Some(j) => if args is Some {
                None
            } else {
                match spec_parse_args(s, spec_skip_ws(s, j)) {
                    None => None,
                    Some((value, a)) => spec_parse_config_tail(s, i, a, area, Some(value), exe),
                }
            },
            None => match spec_parse_field_prefix(s, i, "\"executable\""@) {
                Some(j) => if exe is Some {
                    None
                } else {
                    match spec_parse_string(s, spec_skip_ws(s, j)) {
                        None => None,
                        Some((value, a)) => spec_parse_config_tail(
                            s,
                            i,
                            a,
                            area,
                            args,
                            Some(value),
                        ),
                    }
                },
                None => None,
            },
        },
    }
}

/// After one configuration member: a comma and further members, or
/// the closing brace once every member has appeared.
pub open spec fn spec_parse_config_tail(
    s: Seq<char>,
    i: int,
    a: int,
    area: Option<Rect>,
    args: Option<Seq<Seq<char>>>,
    exe: Option<Seq<char>>,
) -> Option<(AppConfigV, int)>
    decreases s.len() - i, 0int,
{
    let a1 = spec_skip_ws(s, a);
    if 0 <= a1 < s.len() && s[a1] == ',' && i < a1 + 1 {
        spec_parse_config_members(s, a1 + 1, area, args, exe)
    } else if 0 <= a1 < s.len() && s[a1] == '}' {
        match (area, args, exe) {
            (Some(areav), Some(argsv), Some(exev)) => Some(
                (AppConfigV { executable: exev, args: argsv, area: areav }, a1 + 1),
            ),
            _ => None,
        }
    } else {
        None
    }
}

/// An application configuration object: `area`, `args` and
/// `executable` members, in any order.
pub open spec fn spec_parse_config(s: Seq<char>, i: int) -> Option<(AppConfigV, int)> {
    if 0 <= i < s.len() && s[i] == '{' {
        spec_parse_config_members(s, i + 1, None, None, None)
    } else {
        None
    }
}

fn parse_config_members(
    v: &Vec<char>,
    i: usize,
    area: Option<Rect>,
    args: Option<Vec<String>>,
    exe: Option<Vec<char>>,
) -> (r: Option<(crate::config::AppConfig, usize)>)
    requires
        i <= v@.len(),
    ensures
        match r {
            Some(p) => spec_parse_config_members(
                v@,
                i as int,
                area,
                opt_strs_view(args),
                opt_chars_view(exe),
            ) == Some((p.0@, p.1 as int)) && p.1 <= v@.len(),
            None => spec_parse_config_members(
                v@,
                i as int,
                area,
                opt_strs_view(args),
                opt_chars_view(exe),
            ) is None,
        },
    decreases v@.len() - i, 1int,
{
    if let Some(j) = parse_field_prefix(v, i, "\"area\"") {
        if area.is_some() {
            return None;
        }
        return match parse_rect_at(v, skip_ws(v, j)) {
            None => None,
            Some((value, a)) => parse_config_tail(v, i, a, Some(value), args, exe),
        };
    }
    if let Some(j) = parse_field_prefix(v, i, "\"args\"") {
        if args.is_some() {
            return None;
        }
        return match parse_args_at(v, skip_ws(v, j)) {
            None => None,
            Some((value, a)) => parse_config_tail(v, i, a, area, Some(value), exe),
        };
    }
    if let Some(j) = parse_field_prefix(v, i, "\"executable\"") {
        if exe.is_some() {
            return None;
        }
        return match parse_string_at(v, skip_ws(v, j)) {
            None => None,
            Some((value, a)) => parse_config_tail(v, i, a, area, args, Some(value)),
        };
    }
    None
}

fn parse_config_tail(
    v: &Vec<char>,
    i: usize,
    a: usize,
    area: Option<Rect>,
    args: Option<Vec<String>>,
    exe: Option<Vec<char>>,
) -> (r: Option<(crate::config::AppConfig, usize)>)
    requires
        i <= v@.len(),
        a <= v@.len(),
    ensures
        match r {
            Some(p) => spec_parse_config_tail(
                v@,
                i as int,
                a as int,
                area,
                opt_strs_view(args),
                opt_chars_view(exe),
            ) == Some((p.0@, p.1 as int)) && p.1 <= v@.len(),
            None => spec_parse_config_tail(
                v@,
                i as int,
                a as int,
                area,
                opt_strs_view(args),
                opt_chars_view(exe),
            ) is None,
        },
    decreases v@.len() - i, 0int,
{
    let a1 = skip_ws(v, a);
    if a1 < v.len() && v[a1] == ',' && i < a1 + 1 {
        parse_config_members(v, a1 + 1, area, args, exe)
    } else if a1 < v.len() && v[a1] == '}' {
        match (area, args, exe) {
            (Some(areav), Some(argsv), Some(exev)) => {
                let config = crate::config::AppConfig {
                    executable: crate::text::chars_to_string(&exev),
                    args: argsv,
                    area: areav,
                };
                proof {
                    assert(config@.args =~= strs_view(config.args@));
                }
                Some((config, a1 + 1))
            },
            _ => None,
        }
    } else {
        None
    }
}

fn parse_config_at(v: &Vec<char>, i: usize) -> (r: Option<(crate::config::AppConfig, usize)>)
    requires
        i <= v@.len(),
    ensures
        match r {
            Some(p) => spec_parse_config(v@, i as int) == Some((p.0@, p.1 as int)) && p.1
                <= v@.len(),
            None => spec_parse_config(v@, i as int) is None,
        },
{
    if i < v.len() && v[i] == '{' {
        parse_config_members(v, i + 1, None, None, None)
    } else {
        None
    }
}

/// Only whitespace stands between `i` and the end of the frame.
pub open spec fn spec_ws_only_to_end(s: Seq<char>, i: int) -> bool {
    spec_skip_ws(s, i) == s.len()
}

fn ws_only_to_end(v: &Vec<char>, i: usize) -> (r: bool)
    requires
        i <= v@.len(),
    ensures
        r == spec_ws_only_to_end(v@, i as int),
{
    skip_ws(v, i) == v.len()
}

/// Body of a spawn command: `{ "config": config }`.
pub open spec fn spec_parse_spawn_body(s: Seq<char>, i: int) -> Option<(AppConfigV, int)> {
    if 0 <= i < s.len() && s[i] == '{' {
        match spec_parse_field_prefix(s, i + 1, "\"config\""@) {
            None => None,
            Some(j) => match spec_parse_config(s, spec_skip_ws(s, j)) {
                None => None,
                Some((config, a)) => {
                    let a1 = spec_skip_ws(s, a);
                    if 0 <= a1 < s.len() && s[a1] == '}' {
                        Some((config, a1 + 1))
                    } else {
                        None
                    }
                },
            },
        }
    } else {
        None
    }
}

fn parse_spawn_body(v: &Vec<char>, i: usize) -> (r: Option<(crate::config::AppConfig, usize)>)
    requires
        i <= v@.len(),
    ensures
        match r {
            Some(p) => spec_parse_spawn_body(v@, i as int) == Some((p.0@, p.1 as int)) && p.1
                <= v@.len(),
            None => spec_parse_spawn_body(v@, i as int) is None,
        },
{
    if !(i < v.len() && v[i] == '{') {
        return None;
    }
    let j = match parse_field_prefix(v, i + 1, "\"config\"") {
        None => return None,
        Some(j) => j,
    };
    let (config, a) = match parse_config_at(v, skip_ws(v, j)) {
        None => return None,
        Some(p) => p,
    };
    let a1 = skip_ws(v, a);
    if a1 < v.len() && v[a1] == '}' {
        Some((config, a1 + 1))
    } else {
        None
    }
}

/// One member of a move command's body, then the rest: `pid` and
/// `rect`, in any order, each exactly once.
pub open spec fn spec_parse_move_members(
    s: Seq<char>,
    i: int,
    pid: Option<u32>,
    rect: Option<Rect>,
) -> Option<((u32, Rect), int)>
    decreases s.len() - i, 1int,
{
    match spec_parse_u32_field(s, i, "\"pid\""@) {
        Some((value, a)) => if pid is Some {
            None
        } else {
            spec_parse_move_tail(s, i, a, Some(value), rect)
        },
        None => match spec_parse_field_prefix(s, i, "\"rect\""@) {
            Some(j) => if rect is Some {
                None
            } else {
                match spec_parse_rect(s, spec_skip_ws(s, j)) {
                    None => None,
                    Some((value, a)) => spec_parse_move_tail(s, i, a, pid, Some(value)),
                }
            },
            None => None,
        },
    }
}

/// After one member of a move command's body.
pub open spec fn spec_parse_move_tail(
    s: Seq<char>,
    i: int,
    a: int,
    pid: Option<u32>,
    rect: Option<Rect>,
) -> Option<((u32, Rect), int)>
    decreases s.len() - i, 0int,
{
    let a1 = spec_skip_ws(s, a);
    if 0 <= a1 < s.len() && s[a1] == ',' && i < a1 + 1 {
        spec_parse_move_members(s, a1 + 1, pid, rect)
    } else if 0 <= a1 < s.len() && s[a1] == '}' {
        match (pid, rect) {
            (Some(pidv), Some(rectv)) => Some(((pidv, rectv), a1 + 1)),
            _ => None,
        }
    } else {
        None
    }
}

/// Body of a move command: `pid` and `rect` members, in any order.
pub open spec fn spec_parse_move_body(s: Seq<char>, i: int) -> Option<((u32, Rect), int)> {
    if 0 <= i < s.len() && s[i] == '{' {
        spec_parse_move_members(s, i + 1, None, None)
    } else {
        None
    }
}

fn parse_move_members(v: &Vec<char>, i: usize, pid: Option<u32>, rect: Option<Rect>) -> (r: Option<
    ((u32, Rect), usize),
>)
    requires
        i <= v@.len(),
    ensures
        match r {
            Some(p) => spec_parse_move_members(v@, i as int, pid, rect) == Some(
                (p.0, p.1 as int),
            ) && p.1 <= v@.len(),
            None => spec_parse_move_members(v@, i as int, pid, rect) is None,
        },
    decreases v@.len() - i, 1int,
{
    if let Some((value, a)) = parse_u32_field(v, i, "\"pid\"") {
        if pid.is_some() {
            return None;
        }
        return parse_move_tail(v, i, a, Some(value), rect);
    }
    if let Some(j) = parse_field_prefix(v, i, "\"rect\"") {
        if rect.is_some() {
            return None;
        }
        return match parse_rect_at(v, skip_ws(v, j)) {
            None => None,
            Some((value, a)) => parse_move_tail(v, i, a, pid, Some(value)),
        };
    }
    None
}

fn parse_move_tail(v: &Vec<char>, i: usize, a: usize, pid: Option<u32>, rect: Option<Rect>) -> (r:
    Option<((u32, Rect), usize)>)
    requires
        i <= v@.len(),
        a <= v@.len(),
    ensures
        match r {
            Some(p) => spec_parse_move_tail(v@, i as int, a as int, pid, rect) == Some(
                (p.0, p.1 as int),
            ) && p.1 <= v@.len(),
            None => spec_parse_move_tail(v@, i as int, a as int, pid, rect) is None,
        },
    decreases v@.len() - i, 0int,
{
    let a1 = skip_ws(v, a);
    if a1 < v.len() && v[a1] == ',' && i < a1 + 1 {
        parse_move_members(v, a1 + 1, pid, rect)
    } else if a1 < v.len() && v[a1] == '}' {
        match (pid, rect) {
            (Some(pidv), Some(rectv)) => Some(((pidv, rectv), a1 + 1)),
            _ => None,
        }
    } else {
        None
    }
}

fn parse_move_body(v: &Vec<char>, i: usize) -> (r: Option<((u32, Rect), usize)>)
    requires
        i <= v@.len(),
    ensures
        match r {
            Some(p) => spec_parse_move_body(v@, i as int) == Some((p.0, p.1 as int)) && p.1
                <= v@.len(),
            None => spec_parse_move_body(v@, i as int) is None,
        },
{
    if i < v.len() && v[i] == '{' {
        parse_move_members(v, i + 1, None, None)
    } else {
        None
    }
}

/// Body of a kill command: `{ "pid": p }`.
pub open spec fn spec_parse_kill_body(s: Seq<char>, i: int) -> Option<(u32, int)> {
    if 0 <= i < s.len() && s[i] == '{' {
        match spec_parse_u32_field(s, i + 1, "\"pid\""@) {
            None => None,
            Some((pid, a)) => {
                let a1 = spec_skip_ws(s, a);
                if 0 <= a1 < s.len() && s[a1] == '}' {
                    Some((pid, a1 + 1))
                } else {
                    None
                }
            },
        }
    } else {
        None
    }
}

fn parse_kill_body(v: &Vec<char>, i: usize) -> (r: Option<(u32, usize)>)
    requires
        i <= v@.len(),
    ensures
        match r {
            Some(p) => spec_parse_kill_body(v@, i as int) == Some((p.0, p.1 as int)) && p.1
                <= v@.len(),
            None => spec_parse_kill_body(v@, i as int) is None,
        },
{
    if !(i < v.len() && v[i] == '{') {
        return None;
    }
    let (pid, a) = match parse_u32_field(v, i + 1, "\"pid\"") {
        None => return None,
        Some(p) => p,
    };
    let a1 = skip_ws(v, a);
    if a1 < v.len() && v[a1] == '}' {
        Some((pid, a1 + 1))
    } else {
        None
    }
}

/// What a whole command frame denotes: `"List"`, `"ScreenSize"`, or a
/// one-key object tagged `"Spawn"`, `"Move"` or `"Kill"`, and nothing
/// but whitespace around it.  `None` is a malformed frame.
pub open spec fn spec_decode_command(s: Seq<char>) -> Option<crate::config::AppControllerCommandV> {
    let i = spec_skip_ws(s, 0);
    match spec_expect(s, i, "\"List\""@) {
        Some(j) => if spec_ws_only_to_end(s, j) {
            Some(crate::config::AppControllerCommandV::List)
        } else {
            None
        },
        None => match spec_expect(s, i, "\"ScreenSize\""@) {
            Some(j) => if spec_ws_only_to_end(s, j) {
                Some(crate::config::AppControllerCommandV::ScreenSize)
            } else {
                None
            },
            None => if 0 <= i < s.len() && s[i] == '{' {
                match spec_parse_field_prefix(s, i + 1, "\"Spawn\""@) {
                    Some(j) => match spec_parse_spawn_body(s, spec_skip_ws(s, j)) {
                        None => None,
                        Some((config, a)) => {
                            let a1 = spec_skip_ws(s, a);
                            if 0 <= a1 < s.len() && s[a1] == '}' && spec_ws_only_to_end(s, a1 + 1) {
                                Some(crate::config::AppControllerCommandV::Spawn { config })
                            } else {
                                None
                            }
                        },
                    },
                    None => match spec_parse_field_prefix(s, i + 1, "\"Move\""@) {
                        Some(j) => match spec_parse_move_body(s, spec_skip_ws(s, j)) {
                            None => None,
                            Some(((pid, rect), a)) => {
                                let a1 = spec_skip_ws(s, a);
                                if 0 <= a1 < s.len() && s[a1] == '}' && spec_ws_only_to_end(
                                    s,
                                    a1 + 1,
                                ) {
                                    Some(crate::config::AppControllerCommandV::Move { pid, rect })
                                } else {
                                    None
                                }
                            },
                        },
                        None => match spec_parse_field_prefix(s, i + 1, "\"Kill\""@) {
                            Some(j) => match spec_parse_kill_body(s, spec_skip_ws(s, j)) {
                                None => None,
                                Some((pid, a)) => {
                                    let a1 = spec_skip_ws(s, a);
                                    if 0 <= a1 < s.len() && s[a1] == '}' && spec_ws_only_to_end(
                                        s,
                                        a1 + 1,
                                    ) {
                                        Some(crate::config::AppControllerCommandV::Kill { pid })
                                    } else {
                                        None
                                    }
                                },
                            },
                            None => None,
                        },
                    },
                }
            } else {
                None
            },
        },
    }
}

/// The fixed description of a malformed frame.
fn decode_error_message() -> (r: String)
    ensures
        r@.len() > 0,
{
    proof {
        reveal_strlit("malformed command frame");
    }
    String::from_str("malformed command frame")
}

/// Decode one command frame.  Returns the command exactly when the
/// frame conforms to the protocol grammar ([`spec_decode_command`]);
/// a malformed frame yields a non-empty error description and is
/// never anything worse: the connection stays usable.
pub fn decode_command(msg: &str) -> (r: Result<crate::config::AppControllerCommand, String>)
    ensures
        match (r, spec_decode_command(msg@)) {
            (Ok(c), Some(cv)) => c@ == cv,
            (Err(e), None) => e@.len() > 0,
            _ => false,
        },
{
    let v = crate::text::str_to_char_vec(msg);
    let i = skip_ws(&v, 0);
    if let Some(j) = expect_lit(&v, i, "\"List\"") {
        if ws_only_to_end(&v, j) {
            return Ok(crate::config::AppControllerCommand::List);
        }
        return Err(decode_error_message());
    }
    if let Some(j) = expect_lit(&v, i, "\"ScreenSize\"") {
        if ws_only_to_end(&v, j) {
            return Ok(crate::config::AppControllerCommand::ScreenSize);
        }
        return Err(decode_error_message());
    }
    if !(i < v.len() && v[i] == '{') {
        return Err(decode_error_message());
    }
    if let Some(j) = parse_field_prefix(&v, i + 1, "\"Spawn\"") {
        match parse_spawn_body(&v, skip_ws(&v, j)) {
            None => return Err(decode_error_message()),
            Some((config, a)) => {
                let a1 = skip_ws(&v, a);
                if a1 < v.len() && v[a1] == '}' && ws_only_to_end(&v, a1 + 1) {
                    return Ok(crate::config::AppControllerCommand::Spawn { config });
                }
                return Err(decode_error_message());
            },
        }
    }
    if let Some(j) = parse_field_prefix(&v, i + 1, "\"Move\"") {
        match parse_move_body(&v, skip_ws(&v, j)) {
            None => return Err(decode_error_message()),
            Some(((pid, rect), a)) => {
                let a1 = skip_ws(&v, a);
                if a1 < v.len() && v[a1] == '}' && ws_only_to_end(&v, a1 + 1) {
                    return Ok(crate::config::AppControllerCommand::Move { pid, rect });
                }
                return Err(decode_error_message());
            },
        }
    }
    if let Some(j) = parse_field_prefix(&v, i + 1, "\"Kill\"") {
        match parse_kill_body(&v, skip_ws(&v, j)) {
            None => return Err(decode_error_message()),
            Some((pid, a)) => {
                let a1 = skip_ws(&v, a);
                if a1 < v.len() && v[a1] == '}' && ws_only_to_end(&v, a1 + 1) {
                    return Ok(crate::config::AppControllerCommand::Kill { pid });
                }
                return Err(decode_error_message());
            },
        }
    }
    Err(decode_error_message())
}

/// Items of a configuration array after the opening bracket: one or
/// more configuration objects separated by commas, then the bracket.
pub open spec fn spec_parse_config_items(s: Seq<char>, i: int, acc: Seq<AppConfigV>) -> Option<
    (Seq<AppConfigV>, int),
>
    decreases s.len() - i,
{
    let j0 = spec_skip_ws(s, i);
    match spec_parse_config(s, j0) {
        None => None,
        Some((item, j1)) => {
            let j2 = spec_skip_ws(s, j1);
            if 0 <= j2 < s.len() && s[j2] == ']' {
                Some((acc.push(item), j2 + 1))
            } else if 0 <= j2 < s.len() && s[j2] == ',' && i < j2 + 1 {
                spec_parse_config_items(s, j2 + 1, acc.push(item))
            } else {
                None
            }
        },
    }
}

/// The configuration views of a configuration list.
pub open spec fn configs_view(v: Seq<crate::config::AppConfig>) -> Seq<AppConfigV> {
    Seq::new(v.len(), |k: int| v[k]@)
}

fn parse_config_items(v: &Vec<char>, i: usize, acc: Vec<crate::config::AppConfig>) -> (r: Option<
    (Vec<crate::config::AppConfig>, usize),
>)
    requires
        i <= v@.len(),
    ensures
        match r {
            Some(p) => spec_parse_config_items(v@, i as int, configs_view(acc@)) == Some(
                (configs_view(p.0@), p.1 as int),
            ) && p.1 <= v@.len(),
            None => spec_parse_config_items(v@, i as int, configs_view(acc@)) is None,
        },
    decreases v@.len() - i,
{
    let ghost acc0 = acc@;
    let j0 = skip_ws(v, i);
    let (item, j1) = match parse_config_at(v, j0) {
        None => return None,
        Some(p) => p,
    };
    let j2 = skip_ws(v, j1);
    let mut acc2 = acc;
    let ghost itemv = item@;
    acc2.push(item);
    proof {
        assert(configs_view(acc2@) =~= configs_view(acc0).push(itemv));
    }
    if j2 < v.len() && v[j2] == ']' {
        Some((acc2, j2 + 1))
    } else if j2 < v.len() && v[j2] == ',' && i < j2 + 1 {
        parse_config_items(v, j2 + 1, acc2)
    } else {
        None
    }
}

/// A configuration array at `i`: `[]`, or `[` items `]`.
pub open spec fn spec_parse_config_array(s: Seq<char>, i: int) -> Option<(Seq<AppConfigV>, int)> {
    if 0 <= i < s.len() && s[i] == '[' {
        let j = spec_skip_ws(s, i + 1);
        if 0 <= j < s.len() && s[j] == ']' {
            Some((Seq::empty(), j + 1))
        } else {
            spec_parse_config_items(s, i + 1, Seq::empty())
        }
    } else {
        None
    }
}

fn parse_config_array(v: &Vec<char>, i: usize) -> (r: Option<
    (Vec<crate::config::AppConfig>, usize),
>)
    requires
        i <= v@.len(),
    ensures
        match r {
            Some(p) => spec_parse_config_array(v@, i as int) == Some(
                (configs_view(p.0@), p.1 as int),
            ) && p.1 <= v@.len(),
            None => spec_parse_config_array(v@, i as int) is None,
        },
{
    if !(i < v.len() && v[i] == '[') {
        return None;
    }
    let j = skip_ws(v, i + 1);
    if j < v.len() && v[j] == ']' {
        proof {
            assert(configs_view(Seq::<crate::config::AppConfig>::empty())
                =~= Seq::<AppConfigV>::empty());
        }
        Some((Vec::new(), j + 1))
    } else {
        proof {
            assert(configs_view(Seq::<crate::config::AppConfig>::empty())
                =~= Seq::<AppConfigV>::empty());
        }
        parse_config_items(v, i + 1, Vec::new())
    }
}

/// The configuration views of an optional launch list.
pub open spec fn opt_configs_view(o: Option<Vec<crate::config::AppConfig>>) -> Option<
    Seq<AppConfigV>,
> {
    match o {
        Some(v) => Some(configs_view(v@)),
        None => None,
    }
}

/// One member of the startup configuration, then the rest: `height`,
/// `launch` and `width`, in any order, each exactly once.
pub open spec fn spec_parse_comp_members(
    s: Seq<char>,
    i: int,
    width: Option<u32>,
    height: Option<u32>,
    launch: Option<Seq<AppConfigV>>,
) -> Option<(crate::config::CompositorConfigV, int)>
    decreases s.len() - i, 1int,
{
    match spec_parse_u32_field(s, i, "\"height\""@) {
        Some((value, a)) => if height is Some {
            None
        } else {
            spec_parse_comp_tail(s, i, a, width, Some(value), launch)
        },
        None => match spec_parse_u32_field(s, i, "\"width\""@) {
            Some((value, a)) => if width is Some {
                None
            } else {
                spec_parse_comp_tail(s, i, a, Some(value), height, launch)
            },
            None => match spec_parse_field_prefix(s, i, "\"launch\""@) {
                Some(j) => if launch is Some {
                    None
                } else {
                    match spec_parse_config_array(s, spec_skip_ws(s, j)) {
                        None => None,
                        Some((value, a)) => spec_parse_comp_tail(
                            s,
                            i,
                            a,
                            width,
                            height,
                            Some(value),
                        ),
                    }
                },
                None => None,
            },
        },
    }
}

/// After one member of the startup configuration.
pub open spec fn spec_parse_comp_tail(
    s: Seq<char>,
    i: int,
    a: int,
    width: Option<u32>,
    height: Option<u32>,
    launch: Option<Seq<AppConfigV>>,
) -> Option<(crate::config::CompositorConfigV, int)>
    decreases s.len() - i, 0int,
{
    let a1 = spec_skip_ws(s, a);
    if 0 <= a1 < s.len() && s[a1] == ',' && i < a1 + 1 {
        spec_parse_comp_members(s, a1 + 1, width, height, launch)
    } else if 0 <= a1 < s.len() && s[a1] == '}' {
        match (width, height, launch) {
            (Some(widthv), Some(heightv), Some(launchv)) => Some(
                (
                    crate::config::CompositorConfigV {
                        width: widthv,
                        height: heightv,
                        launch: launchv,
                    },
                    a1 + 1,
                ),
            ),
            _ => None,
        }
    } else {
        None
    }
}

/// What a startup-configuration text denotes: one object holding the
/// canvas width and height and the boot launch list, members in any
/// order, in the same strict syntax as the command frames (no
/// comments, member names quoted).  `None` is a bad startup
/// configuration, fatal at startup.
pub open spec fn spec_decode_compositor_config(s: Seq<char>) -> Option<
    crate::config::CompositorConfigV,
> {
    let i = spec_skip_ws(s, 0);
    if 0 <= i < s.len() && s[i] == '{' {
        match spec_parse_comp_members(s, i + 1, None, None, None) {
            None => None,
            Some((config, a)) => if spec_ws_only_to_end(s, a) {
                Some(config)
            } else {
                None
            },
        }
    } else {
        None
    }
}

fn parse_comp_members(
    v: &Vec<char>,
    i: usize,
    width: Option<u32>,
    height: Option<u32>,
    launch: Option<Vec<crate::config::AppConfig>>,
) -> (r: Option<(crate::config::CompositorConfig, usize)>)
    requires
        i <= v@.len(),
    ensures
        match r {
            Some(p) => spec_parse_comp_members(
                v@,
                i as int,
                width,
                height,
                opt_configs_view(launch),
            ) == Some((p.0@, p.1 as int)) && p.1 <= v@.len(),
            None => spec_parse_comp_members(
                v@,
                i as int,
                width,
                height,
                opt_configs_view(launch),
            ) is None,
        },
    decreases v@.len() - i, 1int,
{
    if let Some((value, a)) = parse_u32_field(v, i, "\"height\"") {
        if height.is_some() {
            return None;
        }
        return parse_comp_tail(v, i, a, width, Some(value), launch);
    }
    if let Some((value, a)) = parse_u32_field(v, i, "\"width\"") {
        if width.is_some() {
            return None;
        }
        return parse_comp_tail(v, i, a, Some(value), height, launch);
    }
    if let Some(j) = parse_field_prefix(v, i, "\"launch\"") {
        if launch.is_some() {
            return None;
        }
        return match parse_config_array(v, skip_ws(v, j)) {
            None => None,
            Some((value, a)) => parse_comp_tail(v, i, a, width, height, Some(value)),
        };
    }
    None
}

fn parse_comp_tail(
    v: &Vec<char>,
    i: usize,
    a: usize,
    width: Option<u32>,
    height: Option<u32>,
    launch: Option<Vec<crate::config::AppConfig>>,
) -> (r: Option<(crate::config::CompositorConfig, usize)>)
    requires
        i <= v@.len(),
        a <= v@.len(),
    ensures
        match r {
            Some(p) => spec_parse_comp_tail(
                v@,
                i as int,
                a as int,
                width,
                height,
                opt_configs_view(launch),
            ) == Some((p.0@, p.1 as int)) && p.1 <= v@.len(),
            None => spec_parse_comp_tail(
                v@,
                i as int,
                a as int,
                width,
                height,
                opt_configs_view(launch),
            ) is None,
        },
    decreases v@.len() - i, 0int,
{
    let a1 = skip_ws(v, a);
    if a1 < v.len() && v[a1] == ',' && i < a1 + 1 {
        parse_comp_members(v, a1 + 1, width, height, launch)
    } else if a1 < v.len() && v[a1] == '}' {
        match (width, height, launch) {
            (Some(widthv), Some(heightv), Some(launchv)) => {
                let config = crate::config::CompositorConfig {
                    width: widthv,
                    height: heightv,
                    launch: launchv,
                };
                proof {
                    assert(config@.launch =~= configs_view(config.launch@));
                }
                Some((config, a1 + 1))
            },
            _ => None,
        }
    } else {
        None
    }
}

/// Decode the startup configuration.  Returns it exactly when the
/// text conforms to [`spec_decode_compositor_config`]; anything else
/// is a non-empty error, fatal at startup.
pub fn decode_compositor_config(text: &str) -> (r: Result<
    crate::config::CompositorConfig,
    String,
>)
    ensures
        match (r, spec_decode_compositor_config(text@)) {
            (Ok(c), Some(cv)) => c@ == cv,
            (Err(e), None) => e@.len() > 0,
            _ => false,
        },
{
    let v = crate::text::str_to_char_vec(text);
    let i = skip_ws(&v, 0);
    if !(i < v.len() && v[i] == '{') {
        return Err(config_error_message());
    }
    match parse_comp_members(&v, i + 1, None, None, None) {
        None => Err(config_error_message()),
        Some((config, a)) => {
            if ws_only_to_end(&v, a) {
                Ok(config)
            } else {
                Err(config_error_message())
            }
        },
    }
}

/// The fixed description of a bad startup configuration.
fn config_error_message() -> (r: String)
    ensures
        r@.len() > 0,
{
    proof {
        reveal_strlit("bad startup configuration");
    }
    String::from_str("bad startup configuration")
}

/// Ten to the `k`.
pub open spec fn pow10(k: nat) -> int
    decreases k,
{
    if k == 0 {
        1
    } else {
        10 * pow10((k - 1) as nat)
    }
}

proof fn lemma_pow10_pos(k: nat)
    ensures
        pow10(k) >= 1,
    decreases k,
{
    if k > 0 {
        lemma_pow10_pos((k - 1) as nat);
    }
}

proof fn lemma_digit_char_val(d: u32)
    requires
        d <= 9,
    ensures
        is_digit(crate::text::digit_char(d)),
        digit_val(crate::text::digit_char(d)) == d,
{
}

proof fn lemma_digits_shape(n: u32)
    ensures
        crate::text::spec_u32_digits(n).len() >= 1,
        forall|i: int|
            0 <= i < crate::text::spec_u32_digits(n).len() ==> is_digit(
                #[trigger] crate::text::spec_u32_digits(n)[i],
            ),
        n > 0 ==> crate::text::spec_u32_digits(n)[0] != '0',
        n < 10 ==> crate::text::spec_u32_digits(n) == seq![crate::text::digit_char(n)],
    decreases n,
{
    if n < 10 {
        lemma_digit_char_val(n);
        if n > 0 {
            assert(crate::text::digit_char(n) as u32 == 48 + n);
            assert('0' as u32 == 48);
        }
    } else {
        lemma_digits_shape(n / 10);
        lemma_digit_char_val(n % 10);
        assert(crate::text::spec_u32_digits(n)[0] == crate::text::spec_u32_digits(n / 10)[0]);
    }
}

/// Folding the digit chunk of `n` onto `acc` carries the parse to
/// just after the chunk, with `acc` shifted past it.
proof fn lemma_num_rec_chunk(n: u32, acc: u32, s: Seq<char>, p: int)
    requires
        0 <= p,
        p + crate::text::spec_u32_digits(n).len() <= s.len(),
        s.subrange(p, p + crate::text::spec_u32_digits(n).len() as int)
            == crate::text::spec_u32_digits(n),
        acc as int * pow10(crate::text::spec_u32_digits(n).len() as nat) + n <= u32::MAX as int,
    ensures
        spec_parse_num_rec(s, p, acc) == spec_parse_num_rec(
            s,
            p + crate::text::spec_u32_digits(n).len() as int,
            ((acc as int * pow10(crate::text::spec_u32_digits(n).len() as nat) + n) as u32),
        ),
    decreases n,
{
    let ds = crate::text::spec_u32_digits(n);
    lemma_digits_shape(n);
    if n < 10 {
        assert(s[p] == ds[0]);
        lemma_digit_char_val(n);
        assert(is_digit(s[p]) && digit_val(s[p]) == n);
        assert(pow10(0) == 1);
        assert(pow10(1) == 10);
        assert(acc as int * 10 + n <= u32::MAX as int);
        assert(spec_parse_num_rec(s, p, acc) == spec_parse_num_rec(
            s,
            p + 1,
            ((acc as int * 10 + n as int) as u32),
        ));
    } else {
        let hd = crate::text::spec_u32_digits(n / 10);
        let k = hd.len();
        assert(ds == hd.push(crate::text::digit_char(n % 10)));
        assert(ds.len() == k + 1);
        lemma_pow10_pos(k);
        let pk = pow10(k);
        let q = (n / 10) as int;
        let rr = (n % 10) as int;
        assert(pow10((k + 1) as nat) == 10 * pk) by {
            assert(((k + 1) as nat - 1) as nat == k);
        };
        assert(n as int == q * 10 + rr);
        assert(s.subrange(p, p + k as int) =~= hd) by {
            assert forall|i: int| 0 <= i < k implies s.subrange(p, p + k as int)[i] == hd[i] by {
                assert(s.subrange(p, p + ds.len() as int)[i] == ds[i]);
                assert(ds[i] == hd[i]);
            };
        };
        // the shifted accumulator after the leading digits still fits
        let mid = acc as int * pk + q;
        assert(mid * 10 + rr == acc as int * (10 * pk) + n) by (nonlinear_arith)
            requires
                mid == acc as int * pk + q,
                n as int == q * 10 + rr,
        ;
        assert(mid >= 0) by (nonlinear_arith)
            requires
                mid == acc as int * pk + q,
                pk >= 1,
                acc >= 0,
                q >= 0,
        ;
        assert(mid <= mid * 10 + rr);
        assert(mid <= u32::MAX as int);
        lemma_num_rec_chunk(n / 10, acc, s, p);
        // one more step consumes the final digit
        let d = crate::text::digit_char(n % 10);
        assert(s[p + k] == ds[k as int]) by {
            assert(s.subrange(p, p + ds.len() as int)[k as int] == ds[k as int]);
        };
        assert(ds[k as int] == d);
        lemma_digit_char_val(n % 10);
        assert(is_digit(s[p + k]) && digit_val(s[p + k]) == n % 10);
        assert(spec_parse_num_rec(s, p + k as int, mid as u32) == spec_parse_num_rec(
            s,
            p + k + 1,
            ((mid * 10 + rr) as u32),
        ));
    }
}

/// Round trip of numbers: parsing the decimal rendering of `n`, with
/// anything but a digit after it, yields exactly `n` — the response
/// encoder and the command parser agree on every number.
pub proof fn lemma_digits_parse_round_trip(n: u32, rest: Seq<char>)
    requires
        rest.len() > 0 ==> !is_digit(rest[0]),
    ensures
        spec_parse_u32(crate::text::spec_u32_digits(n) + rest, 0) == Some(
            (n, crate::text::spec_u32_digits(n).len() as int),
        ),
{
    let ds = crate::text::spec_u32_digits(n);
    let s = ds + rest;
    lemma_digits_shape(n);
    assert(s[0] == ds[0]);
    if n == 0 {
        lemma_digit_char_val(0);
        assert(ds == seq![crate::text::digit_char(0)]);
        assert(s[0] == '0') by {
            assert(crate::text::digit_char(0) as u32 == 48);
            assert('0' as u32 == 48);
            vstd::utf8::char_u32_cast(crate::text::digit_char(0), 48);
            vstd::utf8::char_u32_cast('0', 48);
        };
        if 1 < s.len() {
            assert(s[1] == rest[0]);
        }
    } else {
        assert(is_digit(s[0]));
        assert(s[0] != '0');
        assert(s.subrange(0, ds.len() as int) =~= ds);
        lemma_pow10_pos(ds.len());
        assert(0int * pow10(ds.len()) + n <= u32::MAX as int) by (nonlinear_arith)
            requires
                n <= u32::MAX,
        ;
        lemma_num_rec_chunk(n, 0, s, 0);
        assert((0int * pow10(ds.len()) + n) as u32 == n) by (nonlinear_arith);
        if (ds.len() as int) < s.len() {
            assert(s[ds.len() as int] == rest[0]);
        }
        assert(spec_parse_num_rec(s, ds.len() as int, n) == Some((n, ds.len() as int)));
    }
}

/// Parsing the two hexadecimal digit characters of `d` recovers `d`.
proof fn lemma_hex_char_val(d: u32)
    requires
        d <= 15,
    ensures
        is_hex_digit(crate::text::hex_char(d)),
        hex_digit_val(crate::text::hex_char(d)) == d,
{
}

/// Reading the escaped chunk of `t` carries the string parse to just
/// after the chunk, with `t` appended to the accumulator.
proof fn lemma_str_rec_chunk(t: Seq<char>, acc: Seq<char>, s: Seq<char>, p: int)
    requires
        0 <= p,
        p + crate::text::spec_escape(t).len() <= s.len(),
        s.subrange(p, p + crate::text::spec_escape(t).len() as int) == crate::text::spec_escape(t),
    ensures
        spec_parse_str_rec(s, p, acc) == spec_parse_str_rec(
            s,
            p + crate::text::spec_escape(t).len() as int,
            acc + t,
        ),
    decreases t.len(),
{
    if t.len() == 0 {
        assert(acc + t =~= acc);
    } else {
        let front = t.drop_last();
        let c = t.last();
        let ef = crate::text::spec_escape(front);
        let ec = crate::text::escape_char(c);
        assert(crate::text::spec_escape(t) == ef + ec);
        assert(s.subrange(p, p + ef.len() as int) =~= ef) by {
            assert forall|i: int| 0 <= i < ef.len() implies s.subrange(
                p,
                p + ef.len() as int,
            )[i] == ef[i] by {
                assert(s.subrange(p, p + crate::text::spec_escape(t).len() as int)[i]
                    == crate::text::spec_escape(t)[i]);
                assert(crate::text::spec_escape(t)[i] == ef[i]);
            };
        };
        lemma_str_rec_chunk(front, acc, s, p);
        let q = p + ef.len() as int;
        let whole = crate::text::spec_escape(t);
        assert forall|d: int| 0 <= d < ec.len() implies s[q + d] == ec[d] by {
            assert(s.subrange(p, p + whole.len() as int)[q + d - p] == whole[q + d - p]);
            assert(whole[q + d - p] == ec[d]);
        };
        if c == '"' || c == '\\' || c == '\n' || c == '\t' || c == '\r' {
            assert(ec.len() == 2);
            assert(s[q + 0] == ec[0] && s[q + 1] == ec[1]);
            assert(s[q] == '\\');
            assert(spec_parse_str_rec(s, q, acc + front) == spec_parse_str_rec(
                s,
                q + 2,
                (acc + front).push(c),
            ));
            assert((acc + front).push(c) =~= acc + t);
        } else if (c as u32) < 32 {
            assert(ec.len() == 6);
            assert(s[q + 0] == ec[0] && s[q + 1] == ec[1] && s[q + 2] == ec[2] && s[q + 3]
                == ec[3] && s[q + 4] == ec[4] && s[q + 5] == ec[5]);
            assert(s[q] == '\\' && s[q + 1] == 'u' && s[q + 2] == '0' && s[q + 3] == '0');
            let hi = c as u32 / 16;
            let lo = c as u32 % 16;
            lemma_hex_char_val(hi);
            lemma_hex_char_val(lo);
            assert(s[q + 4] == crate::text::hex_char(hi));
            assert(s[q + 5] == crate::text::hex_char(lo));
            assert(is_hex_digit(s[q + 4]) && is_hex_digit(s[q + 5]));
            let code = hex_digit_val(s[q + 4]) * 16 + hex_digit_val(s[q + 5]);
            assert(code == c as u32);
            assert((code as u8) as char == c) by {
                vstd::utf8::char_u32_cast(c, c as u32);
            };
            assert(spec_parse_str_rec(s, q, acc + front) == spec_parse_str_rec(
                s,
                q + 6,
                (acc + front).push(c),
            ));
            assert((acc + front).push(c) =~= acc + t);
        } else {
            assert(ec =~= seq![c]);
            assert(s[q + 0] == ec[0]);
            assert(s[q] == c);
            assert(s[q] != '"' && s[q] != '\\');
            assert((s[q] as u32) >= 32);
            assert(spec_parse_str_rec(s, q, acc + front) == spec_parse_str_rec(
                s,
                q + 1,
                (acc + front).push(c),
            ));
            assert((acc + front).push(c) =~= acc + t);
        }
    }
}

/// Round trip of strings: parsing the quoted, escaped rendering of
/// `t` yields exactly `t` back — the response encoder and the
/// command parser agree on every string.
pub proof fn lemma_string_parse_round_trip(t: Seq<char>, rest: Seq<char>)
    ensures
        spec_parse_string(
            seq!['"'] + crate::text::spec_escape(t) + seq!['"'] + rest,
            0,
        ) == Some((t, crate::text::spec_escape(t).len() + 2int)),
{
    let et = crate::text::spec_escape(t);
    let s = seq!['"'] + et + seq!['"'] + rest;
    assert(s[0] == '"');
    assert(s.subrange(1, 1 + et.len() as int) =~= et);
    lemma_str_rec_chunk(t, Seq::empty(), s, 1);
    assert(Seq::empty() + t =~= t);
    assert(s[1 + et.len() as int] == '"');
    assert(spec_parse_str_rec(s, 1 + et.len() as int, t) == Some((t, et.len() + 2int)));
}

} // verus!
