//! Character-level text utilities for the control protocol codec:
//! decimal rendering of numbers, string escaping, and the bridges
//! between `String` and character vectors.

use vstd::prelude::*;

verus! {

/// The decimal digit character for `d` (`d <= 9`).
pub open spec fn digit_char(d: u32) -> char {
    ((48 + d) as u8) as char
}

/// The decimal digits of `n`, most significant first, no sign, no
/// leading zeros (`0` itself is the single digit `0`).
pub open spec fn spec_u32_digits(n: u32) -> Seq<char>
    decreases n,
{
    if n < 10 {
        seq![digit_char(n)]
    } else {
        spec_u32_digits(n / 10).push(digit_char(n % 10))
    }
}

/// Append the decimal digits of `n` to `out`.
pub fn push_u32_chars(n: u32, out: &mut Vec<char>)
    ensures
        final(out)@ == old(out)@ + spec_u32_digits(n),
    decreases n,
{
    if n < 10 {
        out.push((48 + n as u8) as char);
        proof {
            assert((48 + n as u8) as char == digit_char(n));
            assert(final(out)@ =~= old(out)@ + spec_u32_digits(n));
        }
    } else {
        push_u32_chars(n / 10, out);
        out.push((48 + (n % 10) as u8) as char);
        proof {
            assert((48 + (n % 10) as u8) as char == digit_char(n % 10));
            assert(final(out)@ =~= old(out)@ + spec_u32_digits(n));
        }
    }
}

/// The decimal digits of `n`, with a leading minus sign when it is
/// negative.
pub open spec fn spec_i32_digits(n: i32) -> Seq<char> {
    if n >= 0 {
        spec_u32_digits(n as u32)
    } else {
        seq!['-'] + spec_u32_digits((-(n as int)) as u32)
    }
}

/// Append the signed decimal digits of `n` to `out`.
pub fn push_i32_chars(n: i32, out: &mut Vec<char>)
    ensures
        final(out)@ == old(out)@ + spec_i32_digits(n),
{
    if n >= 0 {
        push_u32_chars(n as u32, out);
    } else {
        out.push('-');
        let magnitude: u32 = (-(n as i64)) as u32;
        push_u32_chars(magnitude, out);
        proof {
            assert(final(out)@ =~= old(out)@ + spec_i32_digits(n));
        }
    }
}

/// The lowercase hexadecimal digit character for `d` (`d <= 15`).
pub open spec fn hex_char(d: u32) -> char {
    if d < 10 {
        digit_char(d)
    } else {
        ((87 + d) as u8) as char
    }
}

/// How one character is written inside a quoted protocol string:
/// quote, backslash and the three common control characters as short
/// escapes, any other control character as `\u00XX`, everything
/// else as itself.
pub open spec fn escape_char(c: char) -> Seq<char> {
    if c == '"' {
        seq!['\\', '"']
    } else if c == '\\' {
        seq!['\\', '\\']
    } else if c == '\n' {
        seq!['\\', 'n']
    } else if c == '\t' {
        seq!['\\', 't']
    } else if c == '\r' {
        seq!['\\', 'r']
    } else if (c as u32) < 32 {
        seq!['\\', 'u', '0', '0', hex_char(c as u32 / 16), hex_char(c as u32 % 16)]
    } else {
        seq![c]
    }
}

/// The lowercase hexadecimal digit character of `d`.
pub fn hex_char_of(d: u32) -> (r: char)
    requires
        d <= 15,
    ensures
        r == hex_char(d),
{
    if d < 10 {
        (48 + d as u8) as char
    } else {
        (87 + d as u8) as char
    }
}

/// The escaped form of a whole string.
pub open spec fn spec_escape(s: Seq<char>) -> Seq<char>
    decreases s.len(),
{
    if s.len() == 0 {
        Seq::empty()
    } else {
        spec_escape(s.drop_last()) + escape_char(s.last())
    }
}

proof fn lemma_escape_take_snoc(s: Seq<char>, i: int)
    requires
        0 <= i < s.len(),
    ensures
        spec_escape(s.take(i + 1)) == spec_escape(s.take(i)) + escape_char(s[i]),
{
    assert(s.take(i + 1).drop_last() =~= s.take(i));
    assert(s.take(i + 1).last() == s[i]);
}

/// Append the escaped form of `s` to `out`.
pub fn push_escaped(s: &Vec<char>, out: &mut Vec<char>)
    ensures
        final(out)@ == old(out)@ + spec_escape(s@),
{
    let mut i: usize = 0;
    while i < s.len()
        invariant
            i <= s@.len(),
            out@ == old(out)@ + spec_escape(s@.take(i as int)),
        decreases s@.len() - i,
    {
        let c = s[i];
        proof {
            lemma_escape_take_snoc(s@, i as int);
        }
        if c == '"' {
            out.push('\\');
            out.push('"');
        } else if c == '\\' {
            out.push('\\');
            out.push('\\');
        } else if c == '\n' {
            out.push('\\');
            out.push('n');
        } else if c == '\t' {
            out.push('\\');
            out.push('t');
        } else if c == '\r' {
            out.push('\\');
            out.push('r');
        } else if (c as u32) < 32 {
            out.push('\\');
            out.push('u');
            out.push('0');
            out.push('0');
            out.push(hex_char_of(c as u32 / 16));
            out.push(hex_char_of(c as u32 % 16));
        } else {
            out.push(c);
        }
        proof {
            assert(out@ =~= old(out)@ + spec_escape(s@.take(i + 1)));
        }
        i += 1;
    }
    proof {
        assert(s@.take(s@.len() as int) =~= s@);
    }
}

/// Append every character of `lit` to `out`.
pub fn push_str_chars(lit: &str, out: &mut Vec<char>)
    ensures
        final(out)@ == old(out)@ + lit@,
{
    let n = lit.unicode_len();
    let mut i: usize = 0;
    while i < n
        invariant
            n == lit@.len(),
            i <= n,
            out@ == old(out)@ + lit@.take(i as int),
        decreases n - i,
    {
        out.push(lit.get_char(i));
        proof {
            assert(lit@.take(i + 1) =~= lit@.take(i as int).push(lit@[i as int]));
            assert(out@ =~= old(out)@ + lit@.take(i + 1));
        }
        i += 1;
    }
    proof {
        assert(lit@.take(n as int) =~= lit@);
    }
}

/// The characters of `s`, as a vector.
pub fn str_to_char_vec(s: &str) -> (r: Vec<char>)
    ensures
        r@ == s@,
{
    let n = s.unicode_len();
    let mut out: Vec<char> = Vec::new();
    let mut i: usize = 0;
    while i < n
        invariant
            n == s@.len(),
            i <= n,
            out@ == s@.take(i as int),
        decreases n - i,
    {
        out.push(s.get_char(i));
        proof {
            assert(s@.take(i + 1) =~= s@.take(i as int).push(s@[i as int]));
        }
        i += 1;
    }
    proof {
        assert(s@.take(n as int) =~= s@);
    }
    out
}

/// Whether two strings hold the same characters.
pub fn str_eq(a: &str, b: &str) -> (r: bool)
    ensures
        r == (a@ == b@),
{
    let na = a.unicode_len();
    let nb = b.unicode_len();
    if na != nb {
        proof {
            assert(a@ != b@);
        }
        return false;
    }
    let mut i: usize = 0;
    while i < na
        invariant
            na == a@.len(),
            na == b@.len(),
            i <= na,
            forall|j: int| 0 <= j < i ==> a@[j] == b@[j],
        decreases na - i,
    {
        if a.get_char(i) != b.get_char(i) {
            proof {
                assert(a@[i as int] != b@[i as int]);
            }
            return false;
        }
        i += 1;
    }
    proof {
        assert(a@ =~= b@);
    }
    true
}

/// Relies on `String: FromIterator<char>`: collecting a sequence of
/// characters yields the string of exactly those characters.
#[verifier::external_body]
pub fn chars_to_string(v: &Vec<char>) -> (r: String)
    ensures
        r@ == v@,
{
    v.iter().collect()
}

} // verus!
