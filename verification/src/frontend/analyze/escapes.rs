//! Escape sequences in string literals.
use vstd::prelude::*;

use crate::frontend::analyze::AnalysisError;
use crate::text::{empty_string, push_char, push_str, str_to_chars, str_to_string};

verus! {

/// The value of a hexadecimal digit.
pub open spec fn hex_digit(c: char) -> Option<nat> {
    if '0' <= c && c <= '9' {
        Some((c as int - '0' as int) as nat)
    } else if 'a' <= c && c <= 'f' {
        Some((c as int - 'a' as int + 10) as nat)
    } else if 'A' <= c && c <= 'F' {
        Some((c as int - 'A' as int + 10) as nat)
    } else {
        None
    }
}

/// The value of a non-empty string of hexadecimal digits.
pub open spec fn hex_digits(s: Seq<char>) -> Option<nat>
    decreases s.len(),
{
    if s.len() == 0 {
        None
    } else {
        match hex_digit(s.last()) {
            None => None,
            Some(d) => if s.len() == 1 {
                Some(d)
            } else {
                match hex_digits(s.drop_last()) {
                    Some(v) => Some(v * 16 + d),
                    None => None,
                }
            },
        }
    }
}

/// A base-16 number as `from_str_radix` reads it: an optional `+`, then
/// at least one digit, with no upper bound yet.
pub open spec fn radix16(s: Seq<char>) -> Option<nat> {
    if s.len() > 0 && s[0] == '+' {
        hex_digits(s.drop_first())
    } else {
        hex_digits(s)
    }
}

/// A Unicode scalar value.
pub open spec fn scalar_value(v: nat) -> bool {
    v <= 0x10FFFF && !(0xD800 <= v && v <= 0xDFFF)
}

/// The index of the first `}` at or after `from`.
pub open spec fn find_close(s: Seq<char>, from: int) -> Option<int>
    decreases s.len() - from,
{
    if from < 0 || from >= s.len() {
        None
    } else if s[from] == '}' {
        Some(from)
    } else {
        find_close(s, from + 1)
    }
}

pub open spec fn prepend(c: char, r: Option<Seq<char>>) -> Option<Seq<char>> {
    match r {
        Some(t) => Some(seq![c] + t),
        None => None,
    }
}

/// The character a one-letter escape stands for.
pub open spec fn simple_escape(c: char) -> Option<char> {
    if c == 'n' {
        Some('\n')
    } else if c == 'r' {
        Some('\r')
    } else if c == 't' {
        Some('\t')
    } else if c == '\\' {
        Some('\\')
    } else if c == '\'' {
        Some('\'')
    } else if c == '"' {
        Some('"')
    } else if c == '0' {
        Some('\0')
    } else {
        None
    }
}

/// The first character a raw literal denotes and how many raw characters
/// spell it: a plain character, `\n \r \t \\ \' \" \0`, `\xHH` (a byte) or
/// `\u{H..}` (a scalar). `None` when the escape is malformed.
pub open spec fn escape_step(s: Seq<char>) -> Option<(char, int)> {
    if s.len() == 0 {
        None
    } else if s[0] != '\\' {
        Some((s[0], 1))
    } else if s.len() == 1 {
        None
    } else if simple_escape(s[1]) is Some {
        Some((simple_escape(s[1])->0, 2))
    } else if s[1] == 'x' {
        if s.len() < 4 {
            None
        } else {
            match radix16(s.subrange(2, 4)) {
                Some(v) => if v < 256 { Some((v as char, 4)) } else { None },
                None => None,
            }
        }
    } else if s[1] == 'u' {
        if s.len() < 3 || s[2] != '{' {
            None
        } else {
            match find_close(s, 3) {
                None => None,
                Some(k) => match radix16(s.subrange(3, k)) {
                    Some(v) => if v < 0x1_0000_0000 && scalar_value(v) { Some((v as char, k + 1)) } else { None },
                    None => None,
                },
            }
        }
    } else {
        None
    }
}

/// The message of the malformed escape that starts `s` (a backslash).
pub open spec fn escape_error(s: Seq<char>) -> Seq<char> {
    if s.len() < 2 {
        "trailing backslash in string literal"@
    } else if s[1] == 'x' {
        if s.len() < 3 {
            "expected hex digit after \\x"@
        } else if s.len() < 4 {
            "expected two hex digits after \\x"@
        } else {
            "invalid hex escape \\x"@ + s.subrange(2, 4)
        }
    } else if s[1] == 'u' {
        if s.len() < 3 || s[2] != '{' {
            "expected '{{' after \\u"@
        } else {
            match find_close(s, 3) {
                None => "unterminated \\u{{...}} escape"@,
                Some(k) => if radix16(s.subrange(3, k)) matches Some(v) && v < 0x1_0000_0000 {
                    "invalid unicode scalar \\u{"@ + s.subrange(3, k) + "}"@
                } else {
                    "invalid unicode escape \\u{"@ + s.subrange(3, k) + "}"@
                },
            }
        }
    } else {
        "unknown escape sequence \\"@ + seq![s[1]]
    }
}

/// The message of the first malformed escape of a raw literal.
pub open spec fn unescape_error(s: Seq<char>) -> Seq<char>
    decreases s.len(),
{
    if s.len() == 0 {
        Seq::empty()
    } else {
        match escape_step(s) {
            Some((c, n)) => if 0 < n <= s.len() {
                unescape_error(s.subrange(n, s.len() as int))
            } else {
                Seq::empty()
            },
            None => escape_error(s),
        }
    }
}

/// The text a raw string literal denotes, or `None` when an escape in it is
/// malformed.
pub open spec fn unescape(s: Seq<char>) -> Option<Seq<char>>
    decreases s.len(),
{
    if s.len() == 0 {
        Some(Seq::empty())
    } else {
        match escape_step(s) {
            Some((c, n)) => if 0 < n <= s.len() {
                prepend(c, unescape(s.subrange(n, s.len() as int)))
            } else {
                None
            },
            None => None,
        }
    }
}

/// `char::from_u32`: the character with code `v` when `v` is a Unicode
/// scalar value.
#[verifier::external_body]
fn char_from_u32(v: u32) -> (r: Option<char>)
    ensures
        r == (if scalar_value(v as nat) { Some(v as char) } else { None::<char> }),
{
    char::from_u32(v)
}

/// `min(radix16(chars[from..to]), cap)`, or `None` when it is no number.
fn parse_radix16(chars: &Vec<char>, from: usize, to: usize, cap: u64) -> (r: Option<u64>)
    requires
        from <= to <= chars.len(),
        0 < cap <= 0x1_0000_0000,
    ensures
        match radix16(chars@.subrange(from as int, to as int)) {
            Some(v) => r == Some((if v < cap { v } else { cap as nat }) as u64),
            None => r is None,
        },
{
    let ghost s = chars@.subrange(from as int, to as int);
    if from < to && chars[from] == '+' {
        proof {
            assert(s[0] == '+');
            assert(s.drop_first() =~= chars@.subrange(from + 1, to as int));
        }
        parse_hex_digits(chars, from + 1, to, cap)
    } else {
        parse_hex_digits(chars, from, to, cap)
    }
}

/// `min(hex_digits(chars[start..to]), cap)`, or `None`.
fn parse_hex_digits(chars: &Vec<char>, start: usize, to: usize, cap: u64) -> (r: Option<u64>)
    requires
        start <= to <= chars.len(),
        0 < cap <= 0x1_0000_0000,
    ensures
        match hex_digits(chars@.subrange(start as int, to as int)) {
            Some(v) => r == Some((if v < cap { v } else { cap as nat }) as u64),
            None => r is None,
        },
{
    let ghost digits = chars@.subrange(start as int, to as int);
    if start == to {
        return None;
    }
    let mut acc: u64 = 0;
    let mut i = start;
    while i < to
        invariant
            start < to <= chars.len(),
            start <= i <= to,
            digits == chars@.subrange(start as int, to as int),
            0 < cap <= 0x1_0000_0000,
            i > start ==> (hex_digits(chars@.subrange(start as int, i as int)) matches Some(v)
                && acc == (if v < cap { v } else { cap as nat })),
            i == start ==> acc == 0,
        decreases to - i,
    {
        let c = chars[i];
        let d: u64 = if '0' <= c && c <= '9' {
            (c as u32 - '0' as u32) as u64
        } else if 'a' <= c && c <= 'f' {
            (c as u32 - 'a' as u32 + 10) as u64
        } else if 'A' <= c && c <= 'F' {
            (c as u32 - 'A' as u32 + 10) as u64
        } else {
            proof {
                assert(digits[i - start] == c);
                lemma_hex_digits_prefix_none(digits, (i - start) as int);
            }
            return None;
        };
        proof {
            let p = chars@.subrange(start as int, i + 1);
            assert(p.last() == c);
            assert(p.drop_last() =~= chars@.subrange(start as int, i as int));
            assert(hex_digit(c) == Some(d as nat));
        }
        let next: u64 = if acc >= cap {
            cap
        } else {
            let v = acc * 16 + d;
            if v >= cap { cap } else { v }
        };
        proof {
            let p = chars@.subrange(start as int, i + 1);
            if i > start {
                let v = hex_digits(chars@.subrange(start as int, i as int))->0;
                assert(hex_digits(p) == Some((v * 16 + d) as nat));
                if v >= cap {
                    assert(v * 16 + d >= cap) by (nonlinear_arith)
                        requires
                            v >= cap,
                            d >= 0,
                    ;
                }
            } else {
                assert(p.len() == 1);
            }
        }
        acc = next;
        i = i + 1;
    }
    Some(acc)
}

proof fn lemma_hex_digits_prefix_none(s: Seq<char>, k: int)
    requires
        0 <= k < s.len(),
        hex_digit(s[k]) is None,
    ensures
        hex_digits(s) is None,
    decreases s.len(),
{
    if k < s.len() - 1 {
        assert(s.drop_last()[k] == s[k]);
        lemma_hex_digits_prefix_none(s.drop_last(), k);
    }
}

/// The first `}` at or after `from`.
fn find_close_exec(chars: &Vec<char>, from: usize) -> (r: Option<usize>)
    requires
        from <= chars.len(),
    ensures
        match find_close(chars@, from as int) {
            Some(k) => r == Some(k as usize),
            None => r is None,
        },
{
    let mut i = from;
    while i < chars.len()
        invariant
            from <= i <= chars.len(),
            find_close(chars@, from as int) == find_close(chars@, i as int),
        decreases chars.len() - i,
    {
        if chars[i] == '}' {
            return Some(i);
        }
        i = i + 1;
    }
    None
}

pub open spec fn with_prefix(p: Seq<char>, r: Option<Seq<char>>) -> Option<Seq<char>> {
    match r {
        Some(t) => Some(p + t),
        None => None,
    }
}

/// Decode the character that starts at `chars[i]`: it and how many raw
/// characters it takes.
fn decode_one(chars: &Vec<char>, i: usize) -> (r: Result<(char, usize), AnalysisError>)
    requires
        i < chars.len(),
    ensures
        match escape_step(chars@.subrange(i as int, chars.len() as int)) {
            Some((c, k)) => r matches Ok((rc, rk)) && rc == c && rk == k,
            None => r matches Err(e) && e.message@ == escape_error(chars@.subrange(i as int, chars.len() as int)),
        },
{
    let n = chars.len();
    let ghost rest = chars@.subrange(i as int, n as int);
    let c = chars[i];
    if c != '\\' {
        return Ok((c, 1));
    }
    if n - i < 2 {
        return Err(AnalysisError::from_str("trailing backslash in string literal"));
    }
    let e = chars[i + 1];
    proof {
        assert(rest[1] == e);
    }
    if e == 'n' {
        return Ok(('\n', 2));
    } else if e == 'r' {
        return Ok(('\r', 2));
    } else if e == 't' {
        return Ok(('\t', 2));
    } else if e == '\\' {
        return Ok(('\\', 2));
    } else if e == '\'' {
        return Ok(('\'', 2));
    } else if e == '"' {
        return Ok(('"', 2));
    } else if e == '0' {
        return Ok(('\0', 2));
    }
    if e == 'x' {
        if n - i < 3 {
            return Err(AnalysisError::from_str("expected hex digit after \\x"));
        }
        if n - i < 4 {
            return Err(AnalysisError::from_str("expected two hex digits after \\x"));
        }
        let mut bad_hex = str_to_string("invalid hex escape \\x");
        push_char(&mut bad_hex, chars[i + 2]);
        push_char(&mut bad_hex, chars[i + 3]);
        proof {
            assert(bad_hex@ =~= "invalid hex escape \\x"@ + rest.subrange(2, 4));
        }
        proof {
            assert(rest.subrange(2, 4) =~= chars@.subrange(i + 2, i + 4));
        }
        match parse_radix16(chars, i + 2, i + 4, 256) {
            Some(v) => {
                if v >= 256 {
                    return Err(AnalysisError::from_message(bad_hex));
                }
                let b: u8 = v as u8;
                return Ok((b as char, 4));
            },
            None => {
                return Err(AnalysisError::from_message(bad_hex));
            },
        }
    }
    if e == 'u' {
        if n - i < 3 || chars[i + 2] != '{' {
            return Err(AnalysisError::from_str("expected '{{' after \\u"));
        }
        proof {
            assert(rest[2] == chars@[i + 2]);
        }
        let close = find_close_exec(chars, i + 3);
        proof {
            lemma_find_close_shift(chars@, i as int, 3);
        }
        match close {
            None => {
                return Err(AnalysisError::from_str("unterminated \\u{{...}} escape"));
            },
            Some(k) => {
                proof {
                    lemma_find_close_range(chars@, (i + 3) as int);
                    assert(rest.subrange(3, k - i) =~= chars@.subrange(i + 3, k as int));
                }
                let mut digits = empty_string();
                let mut j = i + 3;
                while j < k
                    invariant
                        i + 3 <= j <= k <= chars.len(),
                        digits@ =~= chars@.subrange(i + 3, j as int),
                    decreases k - j,
                {
                    push_char(&mut digits, chars[j]);
                    j = j + 1;
                }
                let mut bad_escape = str_to_string("invalid unicode escape \\u{");
                push_str(&mut bad_escape, digits.as_str());
                push_str(&mut bad_escape, "}");
                let mut bad_scalar = str_to_string("invalid unicode scalar \\u{");
                push_str(&mut bad_scalar, digits.as_str());
                push_str(&mut bad_scalar, "}");
                match parse_radix16(chars, i + 3, k, 0x1_0000_0000) {
                    Some(v) => {
                        if v >= 0x1_0000_0000 {
                            return Err(AnalysisError::from_message(bad_escape));
                        }
                        match char_from_u32(v as u32) {
                            Some(ch) => {
                                return Ok((ch, k - i + 1));
                            },
                            None => {
                                return Err(AnalysisError::from_message(bad_scalar));
                            },
                        }
                    },
                    None => {
                        return Err(AnalysisError::from_message(bad_escape));
                    },
                }
            },
        }
    }
    let mut m = str_to_string("unknown escape sequence \\");
    push_char(&mut m, e);
    proof {
        assert(m@ =~= "unknown escape sequence \\"@ + seq![rest[1]]);
    }
    Err(AnalysisError::from_message(m))
}

/// Replace the escape sequences of a raw string literal by what they stand for.
pub fn process_escape_sequences(raw: &str) -> (r: Result<String, AnalysisError>)
    ensures
        match unescape(raw@) {
            Some(t) => r matches Ok(s) && s@ == t,
            None => r matches Err(e) && e.message@ == unescape_error(raw@),
        },
{
    let chars = str_to_chars(raw);
    let n = chars.len();
    let mut out = String::new();
    let mut i: usize = 0;
    proof {
        assert(chars@.subrange(0, n as int) =~= chars@);
        assert(out@ =~= Seq::<char>::empty());
        match unescape(raw@) {
            Some(t) => assert(out@ + t =~= t),
            None => {},
        }
    }
    while i < n
        invariant
            n == chars.len(),
            chars@ == raw@,
            0 <= i <= n,
            unescape(raw@) == with_prefix(out@, unescape(chars@.subrange(i as int, n as int))),
            unescape_error(raw@) == unescape_error(chars@.subrange(i as int, n as int)),
        decreases n - i,
    {
        let ghost rest = chars@.subrange(i as int, n as int);
        let ghost before = out@;
        let (ch, k) = decode_one(&chars, i)?;
        proof {
            lemma_escape_step_len(rest);
            assert(rest.subrange(k as int, rest.len() as int) =~= chars@.subrange(i + k, n as int));
        }
        push_char(&mut out, ch);
        proof {
            match unescape(chars@.subrange(i + k, n as int)) {
                Some(t) => assert(before + (seq![ch] + t) =~= out@ + t),
                None => {},
            }
        }
        i = i + k;
    }
    proof {
        assert(chars@.subrange(n as int, n as int) =~= Seq::<char>::empty());
        assert(out@ + Seq::<char>::empty() =~= out@);
    }
    Ok(out)
}

proof fn lemma_escape_step_len(s: Seq<char>)
    ensures
        escape_step(s) matches Some((c, k)) ==> 0 < k <= s.len(),
{
    if s.len() >= 3 && s[0] == '\\' && s[1] == 'u' && s[2] == '{' {
        lemma_find_close_range(s, 3);
    }
}

proof fn lemma_find_close_shift(s: Seq<char>, i: int, d: int)
    requires
        0 <= i,
        0 <= d,
        i + d <= s.len(),
    ensures
        match find_close(s.subrange(i, s.len() as int), d) {
            Some(k) => find_close(s, i + d) == Some(k + i),
            None => find_close(s, i + d) is None,
        },
    decreases s.len() - (i + d),
{
    let t = s.subrange(i, s.len() as int);
    if i + d < s.len() {
        assert(t[d] == s[i + d]);
        if s[i + d] != '}' {
            lemma_find_close_shift(s, i, d + 1);
        }
    }
}

proof fn lemma_find_close_range(s: Seq<char>, from: int)
    ensures
        find_close(s, from) matches Some(k) ==> from <= k < s.len() && s[k] == '}',
    decreases s.len() - from,
{
    if from >= 0 && from < s.len() && s[from] != '}' {
        lemma_find_close_range(s, from + 1);
    }
}

} // verus!
