//! The lexer: turns source text into tokens with 1-based line/column
//! positions. Lexical errors become `TokenKind::Error` tokens so the parser
//! can report them at their position.
use vstd::prelude::*;

use crate::frontend::tokens::{
    BuiltinFunction, BuiltinType, Identifier, Keyword, Literal, Operator, Token, TokenKind,
};
use crate::text::{chars_to_string, str_to_chars, str_to_string};

verus! {

pub open spec fn is_digit(c: char) -> bool {
    '0' <= c <= '9'
}

pub open spec fn is_ident_start(c: char) -> bool {
    ('a' <= c <= 'z') || ('A' <= c <= 'Z') || c == '_'
}

pub open spec fn is_ident_char(c: char) -> bool {
    is_ident_start(c) || is_digit(c)
}

fn digit_p(c: char) -> (r: bool)
    ensures
        r == is_digit(c),
{
    '0' <= c && c <= '9'
}

fn ident_start_p(c: char) -> (r: bool)
    ensures
        r == is_ident_start(c),
{
    ('a' <= c && c <= 'z') || ('A' <= c && c <= 'Z') || c == '_'
}

fn ident_char_p(c: char) -> (r: bool)
    ensures
        r == is_ident_char(c),
{
    ident_start_p(c) || digit_p(c)
}

/// Whether `s` spells exactly the characters of `w`.
pub open spec fn spells(s: Seq<char>, w: Seq<char>) -> bool {
    s =~= w
}

/// The keyword spelled by `s`, if any. `true`, `false` and `null` are
/// literals, not keywords.
pub open spec fn keyword_of(s: Seq<char>) -> Option<Keyword> {
    if spells(s, seq!['f', 'n']) { Some(Keyword::Function) }
    else if spells(s, seq!['e', 'x', 't', 'e', 'r', 'n']) { Some(Keyword::Extern) }
    else if spells(s, seq!['i', 'm', 'p', 'o', 'r', 't']) { Some(Keyword::Import) }
    else if spells(s, seq!['t', 'y', 'p', 'e']) { Some(Keyword::Type) }
    else if spells(s, seq!['v', 'a', 'r']) { Some(Keyword::Var) }
    else if spells(s, seq!['r', 'e', 't', 'u', 'r', 'n']) { Some(Keyword::Return) }
    else if spells(s, seq!['i', 'f']) { Some(Keyword::If) }
    else if spells(s, seq!['e', 'l', 's', 'e']) { Some(Keyword::Else) }
    else if spells(s, seq!['f', 'o', 'r']) { Some(Keyword::For) }
    else if spells(s, seq!['b', 'r', 'e', 'a', 'k']) { Some(Keyword::Break) }
    else if spells(s, seq!['c', 'o', 'n', 't', 'i', 'n', 'u', 'e']) { Some(Keyword::Continue) }
    else if spells(s, seq!['d', 'e', 'f', 'e', 'r']) { Some(Keyword::Defer) }
    else if spells(s, seq!['s', 'w', 'i', 't', 'c', 'h']) { Some(Keyword::Switch) }
    else if spells(s, seq!['w', 'h', 'e', 'n']) { Some(Keyword::When) }
    else if spells(s, seq!['a', 's']) { Some(Keyword::As) }
    else if spells(s, seq!['s', 't', 'r', 'u', 'c', 't']) { Some(Keyword::Struct) }
    else if spells(s, seq!['e', 'n', 'u', 'm']) { Some(Keyword::Enum) }
    else { None }
}

/// Whether `s` spells one of the word literals `true`, `false`, `null`.
pub open spec fn is_word_literal(s: Seq<char>) -> bool {
    spells(s, seq!['t', 'r', 'u', 'e']) || spells(s, seq!['f', 'a', 'l', 's', 'e'])
        || spells(s, seq!['n', 'u', 'l', 'l'])
}

/// Whether `chars[from..from + w.len()]` spells `w`.
fn matches_at(chars: &Vec<char>, from: usize, to: usize, w: &[char]) -> (r: bool)
    requires
        from <= to <= chars.len(),
    ensures
        r == spells(chars@.subrange(from as int, to as int), w@),
{
    if to - from != w.len() {
        return false;
    }
    let mut i: usize = 0;
    while i < w.len()
        invariant
            to - from == w.len(),
            from <= to <= chars.len(),
            0 <= i <= w.len(),
            forall|j: int| 0 <= j < i ==> chars@[from + j] == w@[j],
        decreases w.len() - i,
    {
        if chars[from + i] != w[i] {
            assert(chars@.subrange(from as int, to as int)[i as int] != w@[i as int]);
            return false;
        }
        i = i + 1;
    }
    assert(chars@.subrange(from as int, to as int) =~= w@);
    true
}

fn keyword_at(chars: &Vec<char>, from: usize, to: usize) -> (r: Option<Keyword>)
    requires
        from <= to <= chars.len(),
    ensures
        r == keyword_of(chars@.subrange(from as int, to as int)),
{
    let ghost s = chars@.subrange(from as int, to as int);
    assert(['f', 'n']@ == seq!['f', 'n']);
    assert(['e', 'x', 't', 'e', 'r', 'n']@ == seq!['e', 'x', 't', 'e', 'r', 'n']);
    assert(['i', 'm', 'p', 'o', 'r', 't']@ == seq!['i', 'm', 'p', 'o', 'r', 't']);
    assert(['t', 'y', 'p', 'e']@ == seq!['t', 'y', 'p', 'e']);
    assert(['v', 'a', 'r']@ == seq!['v', 'a', 'r']);
    assert(['r', 'e', 't', 'u', 'r', 'n']@ == seq!['r', 'e', 't', 'u', 'r', 'n']);
    assert(['i', 'f']@ == seq!['i', 'f']);
    assert(['e', 'l', 's', 'e']@ == seq!['e', 'l', 's', 'e']);
    assert(['f', 'o', 'r']@ == seq!['f', 'o', 'r']);
    assert(['b', 'r', 'e', 'a', 'k']@ == seq!['b', 'r', 'e', 'a', 'k']);
    assert(['c', 'o', 'n', 't', 'i', 'n', 'u', 'e']@ == seq!['c', 'o', 'n', 't', 'i', 'n', 'u', 'e']);
    assert(['d', 'e', 'f', 'e', 'r']@ == seq!['d', 'e', 'f', 'e', 'r']);
    assert(['s', 'w', 'i', 't', 'c', 'h']@ == seq!['s', 'w', 'i', 't', 'c', 'h']);
    assert(['w', 'h', 'e', 'n']@ == seq!['w', 'h', 'e', 'n']);
    assert(['a', 's']@ == seq!['a', 's']);
    assert(['s', 't', 'r', 'u', 'c', 't']@ == seq!['s', 't', 'r', 'u', 'c', 't']);
    assert(['e', 'n', 'u', 'm']@ == seq!['e', 'n', 'u', 'm']);
    if matches_at(chars, from, to, &['f', 'n']) { Some(Keyword::Function) }
    else if matches_at(chars, from, to, &['e', 'x', 't', 'e', 'r', 'n']) { Some(Keyword::Extern) }
    else if matches_at(chars, from, to, &['i', 'm', 'p', 'o', 'r', 't']) { Some(Keyword::Import) }
    else if matches_at(chars, from, to, &['t', 'y', 'p', 'e']) { Some(Keyword::Type) }
    else if matches_at(chars, from, to, &['v', 'a', 'r']) { Some(Keyword::Var) }
    else if matches_at(chars, from, to, &['r', 'e', 't', 'u', 'r', 'n']) { Some(Keyword::Return) }
    else if matches_at(chars, from, to, &['i', 'f']) { Some(Keyword::If) }
    else if matches_at(chars, from, to, &['e', 'l', 's', 'e']) { Some(Keyword::Else) }
    else if matches_at(chars, from, to, &['f', 'o', 'r']) { Some(Keyword::For) }
    else if matches_at(chars, from, to, &['b', 'r', 'e', 'a', 'k']) { Some(Keyword::Break) }
    else if matches_at(chars, from, to, &['c', 'o', 'n', 't', 'i', 'n', 'u', 'e']) { Some(Keyword::Continue) }
    else if matches_at(chars, from, to, &['d', 'e', 'f', 'e', 'r']) { Some(Keyword::Defer) }
    else if matches_at(chars, from, to, &['s', 'w', 'i', 't', 'c', 'h']) { Some(Keyword::Switch) }
    else if matches_at(chars, from, to, &['w', 'h', 'e', 'n']) { Some(Keyword::When) }
    else if matches_at(chars, from, to, &['a', 's']) { Some(Keyword::As) }
    else if matches_at(chars, from, to, &['s', 't', 'r', 'u', 'c', 't']) { Some(Keyword::Struct) }
    else if matches_at(chars, from, to, &['e', 'n', 'u', 'm']) { Some(Keyword::Enum) }
    else { None }
}

/// The builtin type named by the characters after `@`.
fn builtin_type_at(chars: &Vec<char>, from: usize, to: usize) -> (r: Option<BuiltinType>)
    requires
        from <= to <= chars.len(),
    ensures
        r == builtin_type_of(chars@.subrange(from as int, to as int)),
{
    assert(['i', 'n', 't']@ == seq!['i', 'n', 't']);
    assert(['i', 'n', 't', '2']@ == seq!['i', 'n', 't', '2']);
    assert(['i', 'n', 't', '4']@ == seq!['i', 'n', 't', '4']);
    assert(['i', 'n', 't', '8']@ == seq!['i', 'n', 't', '8']);
    assert(['i', 'n', 't', '1', '6']@ == seq!['i', 'n', 't', '1', '6']);
    assert(['u', 'i', 'n', 't']@ == seq!['u', 'i', 'n', 't']);
    assert(['u', 'i', 'n', 't', '2']@ == seq!['u', 'i', 'n', 't', '2']);
    assert(['u', 'i', 'n', 't', '4']@ == seq!['u', 'i', 'n', 't', '4']);
    assert(['u', 'i', 'n', 't', '8']@ == seq!['u', 'i', 'n', 't', '8']);
    assert(['u', 'i', 'n', 't', '1', '6']@ == seq!['u', 'i', 'n', 't', '1', '6']);
    assert(['f', 'l', 'o', 'a', 't', '2']@ == seq!['f', 'l', 'o', 'a', 't', '2']);
    assert(['f', 'l', 'o', 'a', 't', '4']@ == seq!['f', 'l', 'o', 'a', 't', '4']);
    assert(['f', 'l', 'o', 'a', 't', '8']@ == seq!['f', 'l', 'o', 'a', 't', '8']);
    assert(['f', 'l', 'o', 'a', 't', '1', '6']@ == seq!['f', 'l', 'o', 'a', 't', '1', '6']);
    assert(['b', 'o', 'o', 'l']@ == seq!['b', 'o', 'o', 'l']);
    assert(['c', 'h', 'a', 'r']@ == seq!['c', 'h', 'a', 'r']);
    assert(['s', 't', 'r', 'i', 'n', 'g']@ == seq!['s', 't', 'r', 'i', 'n', 'g']);
    assert(['v', 'o', 'i', 'd']@ == seq!['v', 'o', 'i', 'd']);
    if matches_at(chars, from, to, &['i', 'n', 't']) { Some(BuiltinType::Int1) }
    else if matches_at(chars, from, to, &['i', 'n', 't', '2']) { Some(BuiltinType::Int2) }
    else if matches_at(chars, from, to, &['i', 'n', 't', '4']) { Some(BuiltinType::Int4) }
    else if matches_at(chars, from, to, &['i', 'n', 't', '8']) { Some(BuiltinType::Int8) }
    else if matches_at(chars, from, to, &['i', 'n', 't', '1', '6']) { Some(BuiltinType::Int16) }
    else if matches_at(chars, from, to, &['u', 'i', 'n', 't']) { Some(BuiltinType::UInt1) }
    else if matches_at(chars, from, to, &['u', 'i', 'n', 't', '2']) { Some(BuiltinType::UInt2) }
    else if matches_at(chars, from, to, &['u', 'i', 'n', 't', '4']) { Some(BuiltinType::UInt4) }
    else if matches_at(chars, from, to, &['u', 'i', 'n', 't', '8']) { Some(BuiltinType::UInt8) }
    else if matches_at(chars, from, to, &['u', 'i', 'n', 't', '1', '6']) { Some(BuiltinType::UInt16) }
    else if matches_at(chars, from, to, &['f', 'l', 'o', 'a', 't', '2']) { Some(BuiltinType::Float2) }
    else if matches_at(chars, from, to, &['f', 'l', 'o', 'a', 't', '4']) { Some(BuiltinType::Float4) }
    else if matches_at(chars, from, to, &['f', 'l', 'o', 'a', 't', '8']) { Some(BuiltinType::Float8) }
    else if matches_at(chars, from, to, &['f', 'l', 'o', 'a', 't', '1', '6']) { Some(BuiltinType::Float16) }
    else if matches_at(chars, from, to, &['b', 'o', 'o', 'l']) { Some(BuiltinType::Boolean) }
    else if matches_at(chars, from, to, &['c', 'h', 'a', 'r']) { Some(BuiltinType::Char) }
    else if matches_at(chars, from, to, &['s', 't', 'r', 'i', 'n', 'g']) { Some(BuiltinType::String) }
    else if matches_at(chars, from, to, &['v', 'o', 'i', 'd']) { Some(BuiltinType::Void) }
    else { None }
}

/// The builtin function named by the characters after `@`.
fn builtin_function_at(chars: &Vec<char>, from: usize, to: usize) -> (r: Option<BuiltinFunction>)
    requires
        from <= to <= chars.len(),
    ensures
        r == builtin_function_of(chars@.subrange(from as int, to as int)),
{
    assert(['c', 'o', 'n', 'c', 'a', 't']@ == seq!['c', 'o', 'n', 'c', 'a', 't']);
    assert(['s', 't', 'r', '_', 'l', 'e', 'n']@ == seq!['s', 't', 'r', '_', 'l', 'e', 'n']);
    assert(['s', 't', 'r', '_', 'e', 'q']@ == seq!['s', 't', 'r', '_', 'e', 'q']);
    if matches_at(chars, from, to, &['c', 'o', 'n', 'c', 'a', 't']) { Some(BuiltinFunction::Concat) }
    else if matches_at(chars, from, to, &['s', 't', 'r', '_', 'l', 'e', 'n']) { Some(BuiltinFunction::StrLen) }
    else if matches_at(chars, from, to, &['s', 't', 'r', '_', 'e', 'q']) { Some(BuiltinFunction::StrEq) }
    else { None }
}

/// The numeric value of a run of decimal digits.
pub open spec fn digits_value(s: Seq<char>) -> nat
    decreases s.len(),
{
    if s.len() == 0 {
        0
    } else {
        digits_value(s.drop_last()) * 10 + ((s.last() as u32 - '0' as u32) as nat)
    }
}

/// The value of `chars[from..to]` read as a decimal number, or `None` when it
/// does not fit in a `u64`.
fn decimal_value(chars: &Vec<char>, from: usize, to: usize) -> (r: Option<u64>)
    requires
        from <= to <= chars.len(),
        forall|i: int| from <= i < to ==> is_digit(#[trigger] chars@[i]),
    ensures
        match r {
            Some(v) => v as nat == digits_value(chars@.subrange(from as int, to as int)),
            None => digits_value(chars@.subrange(from as int, to as int)) > u64::MAX,
        },
{
    let mut v: u64 = 0;
    let mut i: usize = from;
    while i < to
        invariant
            from <= i <= to <= chars.len(),
            forall|k: int| from <= k < to ==> is_digit(#[trigger] chars@[k]),
            v as nat == digits_value(chars@.subrange(from as int, i as int)),
        decreases to - i,
    {
        let d = (chars[i] as u32 - '0' as u32) as u64;
        assert(chars@.subrange(from as int, i + 1).drop_last() =~= chars@.subrange(from as int, i as int));
        proof { lemma_digits_monotone(chars@.subrange(from as int, to as int), (i - from) as nat); }
        assert(chars@.subrange(from as int, to as int).subrange(0, (i + 1 - from) as int) =~= chars@.subrange(from as int, i + 1));
        if v > (u64::MAX - d) / 10 {
            assert(v * 10 + d > u64::MAX) by (nonlinear_arith)
                requires v > (u64::MAX - d) / 10, d <= 9;
            return None;
        }
        assert(v * 10 + d <= u64::MAX) by (nonlinear_arith)
            requires v <= (u64::MAX - d) / 10, d <= 9;
        v = v * 10 + d;
        i = i + 1;
    }
    Some(v)
}

/// The value of a digit run is at least the value of any of its prefixes.
proof fn lemma_digits_monotone(s: Seq<char>, k: nat)
    requires
        k < s.len(),
    ensures
        digits_value(s.subrange(0, (k + 1) as int)) <= digits_value(s),
    decreases s.len(),
{
    if k + 1 < s.len() {
        lemma_digits_monotone(s.drop_last(), k);
        assert(s.drop_last().subrange(0, (k + 1) as int) =~= s.subrange(0, (k + 1) as int));
    } else {
        assert(s.subrange(0, (k + 1) as int) =~= s);
    }
}

/// A token's kind as plain values: texts as character sequences.
pub enum TokV {
    Ident(Seq<char>),
    Kw(Keyword),
    Op(Operator),
    Int(u64),
    Float(Seq<char>),
    Bool(bool),
    Chr(char),
    Str(Seq<char>),
    Null,
    BType(BuiltinType),
    BFun(BuiltinFunction),
    Comment,
    Error(Seq<char>),
}

pub open spec fn kind_view(k: TokenKind) -> TokV {
    match k {
        TokenKind::Identifier(id) => TokV::Ident(id@),
        TokenKind::Keyword(kw) => TokV::Kw(kw),
        TokenKind::Operator(op) => TokV::Op(op),
        TokenKind::Literal(Literal::Integer(v)) => TokV::Int(v),
        TokenKind::Literal(Literal::Float(f)) => TokV::Float(f@),
        TokenKind::Literal(Literal::Boolean(b)) => TokV::Bool(b),
        TokenKind::Literal(Literal::Character(c)) => TokV::Chr(c),
        TokenKind::Literal(Literal::String(t)) => TokV::Str(t@),
        TokenKind::Literal(Literal::Null) => TokV::Null,
        TokenKind::BuiltinType(b) => TokV::BType(b),
        TokenKind::BuiltinFunction(f) => TokV::BFun(f),
        TokenKind::Comment => TokV::Comment,
        TokenKind::Error(m) => TokV::Error(m@),
    }
}

/// A token as plain values: its kind, line and column.
pub open spec fn token_view(t: Token) -> (TokV, int, int) {
    (kind_view(t.kind), t.line as int, t.column as int)
}

pub open spec fn tokens_view(ts: Seq<Token>) -> Seq<(TokV, int, int)> {
    Seq::new(ts.len(), |i: int| token_view(ts[i]))
}

/// The end of the run of identifier characters that starts at `from`.
pub open spec fn ident_end(chars: Seq<char>, from: int) -> int
    decreases chars.len() - from,
{
    if 0 <= from < chars.len() && is_ident_char(chars[from]) {
        ident_end(chars, from + 1)
    } else {
        from
    }
}

/// The end of the run of decimal digits that starts at `from`.
pub open spec fn digit_end(chars: Seq<char>, from: int) -> int
    decreases chars.len() - from,
{
    if 0 <= from < chars.len() && is_digit(chars[from]) {
        digit_end(chars, from + 1)
    } else {
        from
    }
}

/// The position of the first newline at or after `from` (the end of the
/// text when there is none).
pub open spec fn line_end(chars: Seq<char>, from: int) -> int
    decreases chars.len() - from,
{
    if 0 <= from < chars.len() && chars[from] != '\n' {
        line_end(chars, from + 1)
    } else {
        from
    }
}

/// The word `s` (a run of identifier characters) as a token.
pub open spec fn word_kind(s: Seq<char>) -> TokV {
    if spells(s, seq!['t', 'r', 'u', 'e']) {
        TokV::Bool(true)
    } else if spells(s, seq!['f', 'a', 'l', 's', 'e']) {
        TokV::Bool(false)
    } else if spells(s, seq!['n', 'u', 'l', 'l']) {
        TokV::Null
    } else {
        match keyword_of(s) {
            Some(k) => TokV::Kw(k),
            None => TokV::Ident(s),
        }
    }
}

/// The builtin type a name after `@` denotes.
pub open spec fn builtin_type_of(s: Seq<char>) -> Option<BuiltinType> {
    if spells(s, seq!['i', 'n', 't']) { Some(BuiltinType::Int1) }
    else if spells(s, seq!['i', 'n', 't', '2']) { Some(BuiltinType::Int2) }
    else if spells(s, seq!['i', 'n', 't', '4']) { Some(BuiltinType::Int4) }
    else if spells(s, seq!['i', 'n', 't', '8']) { Some(BuiltinType::Int8) }
    else if spells(s, seq!['i', 'n', 't', '1', '6']) { Some(BuiltinType::Int16) }
    else if spells(s, seq!['u', 'i', 'n', 't']) { Some(BuiltinType::UInt1) }
    else if spells(s, seq!['u', 'i', 'n', 't', '2']) { Some(BuiltinType::UInt2) }
    else if spells(s, seq!['u', 'i', 'n', 't', '4']) { Some(BuiltinType::UInt4) }
    else if spells(s, seq!['u', 'i', 'n', 't', '8']) { Some(BuiltinType::UInt8) }
    else if spells(s, seq!['u', 'i', 'n', 't', '1', '6']) { Some(BuiltinType::UInt16) }
    else if spells(s, seq!['f', 'l', 'o', 'a', 't', '2']) { Some(BuiltinType::Float2) }
    else if spells(s, seq!['f', 'l', 'o', 'a', 't', '4']) { Some(BuiltinType::Float4) }
    else if spells(s, seq!['f', 'l', 'o', 'a', 't', '8']) { Some(BuiltinType::Float8) }
    else if spells(s, seq!['f', 'l', 'o', 'a', 't', '1', '6']) { Some(BuiltinType::Float16) }
    else if spells(s, seq!['b', 'o', 'o', 'l']) { Some(BuiltinType::Boolean) }
    else if spells(s, seq!['c', 'h', 'a', 'r']) { Some(BuiltinType::Char) }
    else if spells(s, seq!['s', 't', 'r', 'i', 'n', 'g']) { Some(BuiltinType::String) }
    else if spells(s, seq!['v', 'o', 'i', 'd']) { Some(BuiltinType::Void) }
    else { None }
}

/// The builtin function a name after `@` denotes.
pub open spec fn builtin_function_of(s: Seq<char>) -> Option<BuiltinFunction> {
    if spells(s, seq!['c', 'o', 'n', 'c', 'a', 't']) { Some(BuiltinFunction::Concat) }
    else if spells(s, seq!['s', 't', 'r', '_', 'l', 'e', 'n']) { Some(BuiltinFunction::StrLen) }
    else if spells(s, seq!['s', 't', 'r', '_', 'e', 'q']) { Some(BuiltinFunction::StrEq) }
    else { None }
}

/// The character a backslash escape in a character literal stands for.
pub open spec fn char_escape(e: char) -> Option<char> {
    if e == 'n' { Some('\n') }
    else if e == 't' { Some('\t') }
    else if e == 'r' { Some('\r') }
    else if e == '0' { Some('\0') }
    else if e == '\\' { Some('\\') }
    else if e == '\'' { Some('\'') }
    else if e == '"' { Some('"') }
    else { None }
}

/// The operator starting with `c` (followed by `next` and `third`), longest
/// match first, and its length.
pub open spec fn operator_at(c: char, next: char, third: char) -> Option<(Operator, int)> {
    if c == '.' && next == '.' && third == '.' { Some((Operator::Ellipsis, 3)) }
    else if c == '.' && next == '.' { Some((Operator::DotDot, 2)) }
    else if c == '.' && next == '=' { Some((Operator::DotEquals, 2)) }
    else if c == '.' { Some((Operator::Dot, 1)) }
    else if c == ':' && next == ':' { Some((Operator::DoubleColon, 2)) }
    else if c == ':' && next == '=' { Some((Operator::ColonEquals, 2)) }
    else if c == ':' { Some((Operator::Colon, 1)) }
    else if c == '=' && next == '=' { Some((Operator::DoubleEquals, 2)) }
    else if c == '=' { Some((Operator::Equals, 1)) }
    else if c == '!' && next == '=' { Some((Operator::Different, 2)) }
    else if c == '!' { Some((Operator::LogicalNot, 1)) }
    else if c == '<' && next == '<' { Some((Operator::LeftShift, 2)) }
    else if c == '<' && next == '=' { Some((Operator::LesserEqual, 2)) }
    else if c == '<' { Some((Operator::LesserThan, 1)) }
    else if c == '>' && next == '>' { Some((Operator::RightShift, 2)) }
    else if c == '>' && next == '=' { Some((Operator::GreaterEqual, 2)) }
    else if c == '>' { Some((Operator::GreaterThan, 1)) }
    else if c == '&' && next == '&' { Some((Operator::LogicalAnd, 2)) }
    else if c == '&' { Some((Operator::Ampersand, 1)) }
    else if c == '|' && next == '|' { Some((Operator::LogicalOr, 2)) }
    else if c == '|' { Some((Operator::Pipe, 1)) }
    else if c == '+' { Some((Operator::Plus, 1)) }
    else if c == '-' { Some((Operator::Minus, 1)) }
    else if c == '*' { Some((Operator::Star, 1)) }
    else if c == '/' { Some((Operator::Slash, 1)) }
    else if c == '%' { Some((Operator::Percent, 1)) }
    else if c == '^' { Some((Operator::Caret, 1)) }
    else if c == '~' { Some((Operator::Tilde, 1)) }
    else if c == ',' { Some((Operator::Comma, 1)) }
    else if c == ';' { Some((Operator::Semicolon, 1)) }
    else if c == '(' { Some((Operator::LeftParen, 1)) }
    else if c == ')' { Some((Operator::RightParen, 1)) }
    else if c == '{' { Some((Operator::LeftBrace, 1)) }
    else if c == '}' { Some((Operator::RightBrace, 1)) }
    else if c == '[' { Some((Operator::LeftBracket, 1)) }
    else if c == ']' { Some((Operator::RightBracket, 1)) }
    else { None }
}

/// The character at `i`, or `'\0'` past the end.
pub open spec fn char_at(chars: Seq<char>, i: int) -> char {
    if 0 <= i < chars.len() { chars[i] } else { '\0' }
}

/// Inside a string literal from `end`, with `newlines` line breaks and the
/// column `col` reached so far: the position of the closing quote (or the end
/// of the text), the line breaks inside, and the column after them. A
/// backslash keeps the character after it.
pub open spec fn string_body(chars: Seq<char>, end: int, newlines: int, col: int) -> (int, int, int)
    decreases chars.len() - end,
{
    if 0 <= end < chars.len() && chars[end] != '"' {
        if chars[end] == '\n' {
            string_body(chars, end + 1, newlines + 1, 1)
        } else if chars[end] == '\\' && end + 1 < chars.len() {
            if chars[end + 1] == '\n' {
                string_body(chars, end + 2, newlines + 1, 1)
            } else {
                string_body(chars, end + 2, newlines, col + 2)
            }
        } else {
            string_body(chars, end + 1, newlines, col + 1)
        }
    } else {
        (end, newlines, col)
    }
}

/// One scanned token: its kind, the position after it, the line breaks it
/// spans, and the column after it when it spans lines.
pub struct ScanV {
    pub kind: TokV,
    pub end: int,
    pub newlines: int,
    pub column_after: int,
}

/// The token that starts at `pos` (which is not white space).
pub open spec fn scan_at(chars: Seq<char>, pos: int) -> ScanV {
    let n = chars.len() as int;
    let c = chars[pos];
    if is_ident_start(c) {
        let e = ident_end(chars, pos + 1);
        ScanV { kind: word_kind(chars.subrange(pos, e)), end: e, newlines: 0, column_after: 0 }
    } else if is_digit(c) {
        let d = digit_end(chars, pos + 1);
        if d + 1 < n && chars[d] == '.' && is_digit(chars[d + 1]) {
            let f = digit_end(chars, d + 2);
            ScanV { kind: TokV::Float(chars.subrange(pos, f)), end: f, newlines: 0, column_after: 0 }
        } else {
            let v = digits_value(chars.subrange(pos, d));
            ScanV {
                kind: if v <= u64::MAX { TokV::Int(v as u64) } else { TokV::Error("integer literal does not fit in 64 bits"@) },
                end: d,
                newlines: 0,
                column_after: 0,
            }
        }
    } else if c == '"' {
        let (e, nl, col) = string_body(chars, pos + 1, 0, 1);
        if e >= n {
            ScanV { kind: TokV::Error("unterminated string literal"@), end: n, newlines: nl, column_after: col }
        } else {
            ScanV { kind: TokV::Str(chars.subrange(pos + 1, e)), end: e + 1, newlines: nl, column_after: col + 1 }
        }
    } else if c == '\'' {
        if pos + 2 < n && chars[pos + 1] != '\\' && chars[pos + 2] == '\'' {
            ScanV { kind: TokV::Chr(chars[pos + 1]), end: pos + 3, newlines: 0, column_after: 0 }
        } else if pos + 3 < n && chars[pos + 1] == '\\' && chars[pos + 3] == '\'' {
            ScanV {
                kind: match char_escape(chars[pos + 2]) {
                    Some(ch) => TokV::Chr(ch),
                    None => TokV::Error("unknown escape in character literal"@),
                },
                end: pos + 4,
                newlines: 0,
                column_after: 0,
            }
        } else {
            ScanV { kind: TokV::Error("malformed character literal"@), end: pos + 1, newlines: 0, column_after: 0 }
        }
    } else if c == '@' {
        let e = ident_end(chars, pos + 1);
        let name = chars.subrange(pos + 1, e);
        ScanV {
            kind: match builtin_type_of(name) {
                Some(b) => TokV::BType(b),
                None => match builtin_function_of(name) {
                    Some(f) => TokV::BFun(f),
                    None => TokV::Error("unknown builtin '"@ + chars.subrange(pos, e) + "'"@),
                },
            },
            end: e,
            newlines: 0,
            column_after: 0,
        }
    } else if c == '/' && pos + 1 < n && chars[pos + 1] == '/' {
        ScanV { kind: TokV::Comment, end: line_end(chars, pos + 2), newlines: 0, column_after: 0 }
    } else {
        operator_scan(chars, pos)
    }
}

/// The operator or punctuation token at `pos`, or an error for a character
/// that starts no token.
pub open spec fn operator_scan(chars: Seq<char>, pos: int) -> ScanV {
    match operator_at(chars[pos], char_at(chars, pos + 1), char_at(chars, pos + 2)) {
        Some((op, len)) => ScanV { kind: TokV::Op(op), end: pos + len, newlines: 0, column_after: 0 },
        None => ScanV {
            kind: TokV::Error("unexpected character '"@ + seq![chars[pos]] + "'"@),
            end: pos + 1,
            newlines: 0,
            column_after: 0,
        },
    }
}

proof fn lemma_ident_end(chars: Seq<char>, from: int)
    requires
        0 <= from <= chars.len(),
    ensures
        from <= ident_end(chars, from) <= chars.len(),
        forall|i: int| from <= i < ident_end(chars, from) ==> is_ident_char(#[trigger] chars[i]),
        ident_end(chars, from) < chars.len() ==> !is_ident_char(chars[ident_end(chars, from)]),
    decreases chars.len() - from,
{
    if from < chars.len() && is_ident_char(chars[from]) {
        lemma_ident_end(chars, from + 1);
    }
}

proof fn lemma_digit_end(chars: Seq<char>, from: int)
    requires
        0 <= from <= chars.len(),
    ensures
        from <= digit_end(chars, from) <= chars.len(),
        forall|i: int| from <= i < digit_end(chars, from) ==> is_digit(#[trigger] chars[i]),
        digit_end(chars, from) < chars.len() ==> !is_digit(chars[digit_end(chars, from)]),
    decreases chars.len() - from,
{
    if from < chars.len() && is_digit(chars[from]) {
        lemma_digit_end(chars, from + 1);
    }
}

proof fn lemma_line_end(chars: Seq<char>, from: int)
    requires
        0 <= from <= chars.len(),
    ensures
        from <= line_end(chars, from) <= chars.len(),
    decreases chars.len() - from,
{
    if from < chars.len() && chars[from] != '\n' {
        lemma_line_end(chars, from + 1);
    }
}

proof fn lemma_string_body(chars: Seq<char>, end: int, newlines: int, col: int)
    requires
        0 <= end <= chars.len(),
        0 <= newlines,
        1 <= col,
    ensures
        end <= string_body(chars, end, newlines, col).0 <= chars.len(),
        newlines <= string_body(chars, end, newlines, col).1 <= newlines + string_body(chars, end, newlines, col).0 - end,
        1 <= string_body(chars, end, newlines, col).2,
        string_body(chars, end, newlines, col).1 == newlines ==> string_body(chars, end, newlines, col).2 == col
            + string_body(chars, end, newlines, col).0 - end,
        string_body(chars, end, newlines, col).1 > newlines ==> string_body(chars, end, newlines, col).2
            <= string_body(chars, end, newlines, col).0 - end + 1,
    decreases chars.len() - end,
{
    if end < chars.len() && chars[end] != '"' {
        if chars[end] == '\n' {
            lemma_string_body(chars, end + 1, newlines + 1, 1);
        } else if chars[end] == '\\' && end + 1 < chars.len() {
            if chars[end + 1] == '\n' {
                lemma_string_body(chars, end + 2, newlines + 1, 1);
            } else {
                lemma_string_body(chars, end + 2, newlines, col + 2);
            }
        } else {
            lemma_string_body(chars, end + 1, newlines, col + 1);
        }
    }
}

/// A scanned token covers at least one character and stays in the text.
pub proof fn lemma_scan_progress(chars: Seq<char>, pos: int)
    requires
        0 <= pos < chars.len(),
    ensures
        pos < scan_at(chars, pos).end <= chars.len(),
        0 <= scan_at(chars, pos).newlines <= scan_at(chars, pos).end - pos,
        scan_at(chars, pos).newlines > 0 ==> 1 <= scan_at(chars, pos).column_after <= scan_at(chars, pos).end - pos + 1,
{
    lemma_ident_end(chars, pos + 1);
    lemma_digit_end(chars, pos + 1);
    if pos + 2 <= chars.len() {
        lemma_line_end(chars, pos + 2);
    }
    lemma_string_body(chars, pos + 1, 0, 1);
    let d = digit_end(chars, pos + 1);
    if d + 2 <= chars.len() {
        lemma_digit_end(chars, d + 2);
    }
}

/// The tokens of `chars` from `pos` on, the scan being at line `line` and
/// column `col`: white space separates tokens (a newline starts the next
/// line), and each token is scanned as `scan_at` says.
pub open spec fn lex_from(chars: Seq<char>, pos: int, line: int, col: int) -> Seq<(TokV, int, int)>
    decreases chars.len() - pos,
{
    if pos < 0 || pos >= chars.len() {
        Seq::empty()
    } else if chars[pos] == '\n' {
        lex_from(chars, pos + 1, line + 1, 1)
    } else if chars[pos] == ' ' || chars[pos] == '\t' || chars[pos] == '\r' {
        lex_from(chars, pos + 1, line, col + 1)
    } else {
        let sc = scan_at(chars, pos);
        proof {
            lemma_scan_progress(chars, pos);
        }
        seq![(sc.kind, line, col)] + lex_from(
            chars,
            sc.end,
            if sc.newlines > 0 { line + sc.newlines } else { line },
            if sc.newlines > 0 { sc.column_after } else { col + (sc.end - pos) },
        )
    }
}

/// The tokens of the whole text.
pub open spec fn lexed(chars: Seq<char>) -> Seq<(TokV, int, int)> {
    lex_from(chars, 0, 1, 1)
}

/// A token is well formed: its position is 1-based, and an identifier token
/// is a non-empty run of identifier characters that is neither a keyword nor
/// a word literal.
pub open spec fn token_wf(t: Token) -> bool {
    &&& t.line >= 1
    &&& t.column >= 1
    &&& (t.kind matches TokenKind::Identifier(id) ==> {
        &&& id@.len() > 0
        &&& is_ident_start(id@[0])
        &&& forall|i: int| 0 <= i < id@.len() ==> is_ident_char(#[trigger] id@[i])
        &&& keyword_of(id@) is None
        &&& !is_word_literal(id@)
    })
}

/// Position `(l1, c1)` comes before `(l2, c2)` in the source.
pub open spec fn before(l1: usize, c1: usize, l2: usize, c2: usize) -> bool {
    l1 < l2 || (l1 == l2 && c1 < c2)
}

/// Tokens appear in source order: each starts after the one before it.
pub open spec fn in_source_order(toks: Seq<Token>) -> bool {
    forall|i: int, j: int| 0 <= i < j < toks.len() ==> before(toks[i].line, toks[i].column, toks[j].line, toks[j].column)
}

/// Lexer over the characters of one source text.
pub struct Lexer {
    chars: Vec<char>,
}

/// Result of scanning one token starting at a given position.
struct Scan {
    kind: TokenKind,
    /// First position after the token.
    end: usize,
    /// Newlines consumed inside the token (strings may span lines).
    newlines: usize,
    /// Column after the token when `newlines > 0`.
    column_after: usize,
}

/// The exec scan result `s` is the scanned token `v`.
spec fn scan_matches(s: Scan, v: ScanV) -> bool {
    &&& kind_view(s.kind) == v.kind
    &&& s.end == v.end
    &&& s.newlines == v.newlines
    &&& s.newlines > 0 ==> s.column_after == v.column_after
}

impl Lexer {
    /// The source characters being lexed.
    pub closed spec fn source(&self) -> Seq<char> {
        self.chars@
    }

    pub fn new(source: &str) -> (l: Lexer)
        ensures
            l.source() == source@,
            l.source().len() <= isize::MAX,
    {
        Lexer { chars: str_to_chars(source) }
    }

    /// All tokens of the source, comments included, in source order.
    pub fn tokenize(&self) -> (toks: Vec<Token>)
        requires
            self.source().len() <= isize::MAX,
        ensures
            toks.len() <= self.source().len(),
            forall|i: int| 0 <= i < toks.len() ==> token_wf(#[trigger] toks@[i]),
            in_source_order(toks@),
            tokens_view(toks@) == lexed(self.source()),
    {
        let chars = &self.chars;
        let n = chars.len();
        let mut toks: Vec<Token> = Vec::new();
        let mut pos: usize = 0;
        let mut line: usize = 1;
        let mut col: usize = 1;
        while pos < n
            invariant
                n == chars.len(),
                n == self.chars.len(),
                chars@ == self.chars@,
                n <= isize::MAX,
                0 <= pos <= n,
                1 <= line <= pos + 1,
                1 <= col <= pos + 1,
                toks.len() <= pos,
                forall|i: int| 0 <= i < toks.len() ==> token_wf(#[trigger] toks@[i]),
                in_source_order(toks@),
                toks.len() > 0 ==> before(toks@.last().line, toks@.last().column, line, col),
                tokens_view(toks@) + lex_from(chars@, pos as int, line as int, col as int) == lexed(chars@),
            decreases n - pos,
        {
            let c = chars[pos];
            if c == '\n' {
                line = line + 1;
                col = 1;
                pos = pos + 1;
            } else if c == ' ' || c == '\t' || c == '\r' {
                col = col + 1;
                pos = pos + 1;
            } else {
                let scan = self.scan_token(pos);
                let t = Token { kind: scan.kind, line, column: col };
                let ghost prev = toks@;
                let ghost rest = lex_from(chars@, scan.end as int,
                    if scan.newlines > 0 { line + scan.newlines } else { line as int },
                    if scan.newlines > 0 { scan.column_after as int } else { col + (scan.end - pos) });
                proof {
                    assert(lex_from(chars@, pos as int, line as int, col as int) == seq![token_view(t)] + rest);
                }
                toks.push(t);
                proof {
                    assert(tokens_view(toks@) =~= tokens_view(prev) + seq![token_view(t)]);
                    assert(tokens_view(toks@) + rest =~= tokens_view(prev) + (seq![token_view(t)] + rest));
                }
                proof {
                    assert forall|i: int, j: int| 0 <= i < j < toks@.len() implies before(
                        toks@[i].line,
                        toks@[i].column,
                        toks@[j].line,
                        toks@[j].column,
                    ) by {
                        if j < prev.len() {
                            assert(toks@[i] == prev[i] && toks@[j] == prev[j]);
                        } else {
                            assert(toks@[j] == t);
                            if i < prev.len() - 1 {
                                assert(before(prev[i].line, prev[i].column, prev.last().line, prev.last().column));
                            }
                        }
                    }
                }
                if scan.newlines > 0 {
                    line = line + scan.newlines;
                    col = scan.column_after;
                } else {
                    col = col + (scan.end - pos);
                }
                pos = scan.end;
            }
        }
        toks
    }

    /// Scan the token starting at `pos` (not whitespace).
    fn scan_token(&self, pos: usize) -> (s: Scan)
        requires
            pos < self.chars.len(),
            self.chars@.len() <= isize::MAX,
        ensures
            pos < s.end <= self.chars.len(),
            s.newlines > 0 ==> line_count_ok(pos, s.end, s.newlines, s.column_after),
            s.kind matches TokenKind::Identifier(id) ==> {
                &&& id@.len() > 0
                &&& is_ident_start(id@[0])
                &&& forall|i: int| 0 <= i < id@.len() ==> is_ident_char(#[trigger] id@[i])
                &&& keyword_of(id@) is None
                &&& !is_word_literal(id@)
            },
            scan_matches(s, scan_at(self.chars@, pos as int)),
    {
        let chars = &self.chars;
        let n = chars.len();
        let c = chars[pos];
        if ident_start_p(c) {
            let mut end = pos + 1;
            while end < n && ident_char_p(chars[end])
                invariant
                    pos < end <= n,
                    n == chars.len(),
                    is_ident_start(chars@[pos as int]),
                    forall|i: int| pos <= i < end ==> is_ident_char(#[trigger] chars@[i]),
                    ident_end(chars@, pos + 1) == ident_end(chars@, end as int),
                decreases n - end,
            {
                end = end + 1;
            }
            let kind = self.word_token(pos, end);
            return Scan { kind, end, newlines: 0, column_after: 0 };
        }
        if digit_p(c) {
            return self.scan_number(pos);
        }
        if c == '"' {
            return self.scan_string(pos);
        }
        if c == '\'' {
            return self.scan_char(pos);
        }
        if c == '@' {
            let mut end = pos + 1;
            while end < n && ident_char_p(chars[end])
                invariant
                    pos < end <= n,
                    n == chars.len(),
                    ident_end(chars@, pos + 1) == ident_end(chars@, end as int),
                decreases n - end,
            {
                end = end + 1;
            }
            let kind = match builtin_type_at(chars, pos + 1, end) {
                Some(b) => TokenKind::BuiltinType(b),
                None => match builtin_function_at(chars, pos + 1, end) {
                    Some(f) => TokenKind::BuiltinFunction(f),
                    None => {
                        let mut msg = str_to_string("unknown builtin '");
                        let name = chars_to_string(chars, pos, end);
                        crate::text::push_str(&mut msg, name.as_str());
                        crate::text::push_str(&mut msg, "'");
                        TokenKind::Error(msg)
                    },
                },
            };
            return Scan { kind, end, newlines: 0, column_after: 0 };
        }
        if c == '/' && pos + 1 < n && chars[pos + 1] == '/' {
            let mut end = pos + 2;
            while end < n && chars[end] != '\n'
                invariant
                    pos + 2 <= end <= n,
                    n == chars.len(),
                    line_end(chars@, pos + 2) == line_end(chars@, end as int),
                decreases n - end,
            {
                end = end + 1;
            }
            return Scan { kind: TokenKind::Comment, end, newlines: 0, column_after: 0 };
        }
        self.scan_operator(pos)
    }

    /// An identifier, keyword or word literal spanning `[from, to)`.
    fn word_token(&self, from: usize, to: usize) -> (k: TokenKind)
        requires
            from < to <= self.chars.len(),
            is_ident_start(self.chars@[from as int]),
            forall|i: int| from <= i < to ==> is_ident_char(#[trigger] self.chars@[i]),
        ensures
            k matches TokenKind::Identifier(id) ==> {
                &&& id@ == self.chars@.subrange(from as int, to as int)
                &&& keyword_of(id@) is None
                &&& !is_word_literal(id@)
            },
            kind_view(k) == word_kind(self.chars@.subrange(from as int, to as int)),
    {
        let chars = &self.chars;
        assert(['t', 'r', 'u', 'e']@ == seq!['t', 'r', 'u', 'e']);
        assert(['f', 'a', 'l', 's', 'e']@ == seq!['f', 'a', 'l', 's', 'e']);
        assert(['n', 'u', 'l', 'l']@ == seq!['n', 'u', 'l', 'l']);
        if matches_at(chars, from, to, &['t', 'r', 'u', 'e']) {
            return TokenKind::Literal(Literal::Boolean(true));
        }
        if matches_at(chars, from, to, &['f', 'a', 'l', 's', 'e']) {
            return TokenKind::Literal(Literal::Boolean(false));
        }
        if matches_at(chars, from, to, &['n', 'u', 'l', 'l']) {
            return TokenKind::Literal(Literal::Null);
        }
        match keyword_at(chars, from, to) {
            Some(k) => TokenKind::Keyword(k),
            None => TokenKind::Identifier(Identifier { value: chars_to_string(chars, from, to) }),
        }
    }

    /// An integer literal (digits) or a float literal (digits `.` digits).
    fn scan_number(&self, pos: usize) -> (s: Scan)
        requires
            self.chars@.len() <= isize::MAX,
            pos < self.chars.len(),
            is_digit(self.chars@[pos as int]),
        ensures
            pos < s.end <= self.chars.len(),
            s.newlines == 0,
            !(s.kind is Identifier),
            scan_matches(s, scan_at(self.chars@, pos as int)),
    {
        let chars = &self.chars;
        let n = chars.len();
        let mut end = pos + 1;
        while end < n && digit_p(chars[end])
            invariant
                pos < end <= n,
                n == chars.len(),
                forall|i: int| pos <= i < end ==> is_digit(#[trigger] chars@[i]),
                digit_end(chars@, pos + 1) == digit_end(chars@, end as int),
            decreases n - end,
        {
            end = end + 1;
        }
        if end + 1 < n && chars[end] == '.' && digit_p(chars[end + 1]) {
            let mut fend = end + 2;
            while fend < n && digit_p(chars[fend])
                invariant
                    end + 2 <= fend <= n,
                    n == chars.len(),
                    digit_end(chars@, end + 2) == digit_end(chars@, fend as int),
                decreases n - fend,
            {
                fend = fend + 1;
            }
            let text = chars_to_string(chars, pos, fend);
            return Scan { kind: TokenKind::Literal(Literal::Float(text)), end: fend, newlines: 0, column_after: 0 };
        }
        let kind = match decimal_value(chars, pos, end) {
            Some(v) => TokenKind::Literal(Literal::Integer(v)),
            None => TokenKind::Error(str_to_string("integer literal does not fit in 64 bits")),
        };
        Scan { kind, end, newlines: 0, column_after: 0 }
    }

    /// A string literal: the raw text between the quotes. A backslash keeps
    /// the following character (so `\"` does not end the literal).
    fn scan_string(&self, pos: usize) -> (s: Scan)
        requires
            pos < self.chars.len(),
            self.chars@.len() <= isize::MAX,
        ensures
            pos < s.end <= self.chars.len(),
            s.newlines > 0 ==> line_count_ok(pos, s.end, s.newlines, s.column_after),
            !(s.kind is Identifier),
            self.chars@[pos as int] == '"' ==> scan_matches(s, scan_at(self.chars@, pos as int)),
    {
        let chars = &self.chars;
        let n = chars.len();
        let mut end = pos + 1;
        let mut newlines: usize = 0;
        let mut col_after: usize = 1;
        while end < n && chars[end] != '"'
            invariant
                pos < end <= n,
                n == chars.len(),
                n <= isize::MAX,
                newlines <= end - pos,
                1 <= col_after <= end - pos + 1,
                string_body(chars@, pos + 1, 0, 1) == string_body(chars@, end as int, newlines as int, col_after as int),
            decreases n - end,
        {
            if chars[end] == '\n' {
                newlines = newlines + 1;
                col_after = 1;
                end = end + 1;
            } else if chars[end] == '\\' && end + 1 < n {
                if chars[end + 1] == '\n' {
                    newlines = newlines + 1;
                    col_after = 1;
                } else {
                    col_after = col_after + 2;
                }
                end = end + 2;
            } else {
                col_after = col_after + 1;
                end = end + 1;
            }
        }
        if end >= n {
            return Scan {
                kind: TokenKind::Error(str_to_string("unterminated string literal")),
                end: n,
                newlines,
                column_after: col_after,
            };
        }
        let raw = chars_to_string(chars, pos + 1, end);
        Scan {
            kind: TokenKind::Literal(Literal::String(raw)),
            end: end + 1,
            newlines,
            column_after: col_after + 1,
        }
    }

    /// A character literal such as `'a'` or `'\n'`.
    fn scan_char(&self, pos: usize) -> (s: Scan)
        requires
            self.chars@.len() <= isize::MAX,
            pos < self.chars.len(),
        ensures
            pos < s.end <= self.chars.len(),
            s.newlines == 0,
            !(s.kind is Identifier),
            self.chars@[pos as int] == '\'' ==> scan_matches(s, scan_at(self.chars@, pos as int)),
    {
        let chars = &self.chars;
        let n = chars.len();
        if pos + 2 < n && chars[pos + 1] != '\\' && chars[pos + 2] == '\'' {
            return Scan {
                kind: TokenKind::Literal(Literal::Character(chars[pos + 1])),
                end: pos + 3,
                newlines: 0,
                column_after: 0,
            };
        }
        if pos + 3 < n && chars[pos + 1] == '\\' && chars[pos + 3] == '\'' {
            let e = chars[pos + 2];
            let v = if e == 'n' { Some('\n') }
                else if e == 't' { Some('\t') }
                else if e == 'r' { Some('\r') }
                else if e == '0' { Some('\0') }
                else if e == '\\' { Some('\\') }
                else if e == '\'' { Some('\'') }
                else if e == '"' { Some('"') }
                else { None };
            let kind = match v {
                Some(ch) => TokenKind::Literal(Literal::Character(ch)),
                None => TokenKind::Error(str_to_string("unknown escape in character literal")),
            };
            return Scan { kind, end: pos + 4, newlines: 0, column_after: 0 };
        }
        Scan {
            kind: TokenKind::Error(str_to_string("malformed character literal")),
            end: pos + 1,
            newlines: 0,
            column_after: 0,
        }
    }

    /// Operators and punctuation, longest match first.
    fn scan_operator(&self, pos: usize) -> (s: Scan)
        requires
            self.chars@.len() <= isize::MAX,
            pos < self.chars.len(),
        ensures
            pos < s.end <= self.chars.len(),
            s.newlines == 0,
            !(s.kind is Identifier),
            scan_matches(s, operator_scan(self.chars@, pos as int)),
    {
        let chars = &self.chars;
        let n = chars.len();
        let c = chars[pos];
        let next = if pos + 1 < n { chars[pos + 1] } else { '\0' };
        let third = if pos + 2 < n { chars[pos + 2] } else { '\0' };
        let (op, len): (Option<Operator>, usize) =
            if c == '.' && next == '.' && third == '.' { (Some(Operator::Ellipsis), 3) }
            else if c == '.' && next == '.' { (Some(Operator::DotDot), 2) }
            else if c == '.' && next == '=' { (Some(Operator::DotEquals), 2) }
            else if c == '.' { (Some(Operator::Dot), 1) }
            else if c == ':' && next == ':' { (Some(Operator::DoubleColon), 2) }
            else if c == ':' && next == '=' { (Some(Operator::ColonEquals), 2) }
            else if c == ':' { (Some(Operator::Colon), 1) }
            else if c == '=' && next == '=' { (Some(Operator::DoubleEquals), 2) }
            else if c == '=' { (Some(Operator::Equals), 1) }
            else if c == '!' && next == '=' { (Some(Operator::Different), 2) }
            else if c == '!' { (Some(Operator::LogicalNot), 1) }
            else if c == '<' && next == '<' { (Some(Operator::LeftShift), 2) }
            else if c == '<' && next == '=' { (Some(Operator::LesserEqual), 2) }
            else if c == '<' { (Some(Operator::LesserThan), 1) }
            else if c == '>' && next == '>' { (Some(Operator::RightShift), 2) }
            else if c == '>' && next == '=' { (Some(Operator::GreaterEqual), 2) }
            else if c == '>' { (Some(Operator::GreaterThan), 1) }
            else if c == '&' && next == '&' { (Some(Operator::LogicalAnd), 2) }
            else if c == '&' { (Some(Operator::Ampersand), 1) }
            else if c == '|' && next == '|' { (Some(Operator::LogicalOr), 2) }
            else if c == '|' { (Some(Operator::Pipe), 1) }
            else if c == '+' { (Some(Operator::Plus), 1) }
            else if c == '-' { (Some(Operator::Minus), 1) }
            else if c == '*' { (Some(Operator::Star), 1) }
            else if c == '/' { (Some(Operator::Slash), 1) }
            else if c == '%' { (Some(Operator::Percent), 1) }
            else if c == '^' { (Some(Operator::Caret), 1) }
            else if c == '~' { (Some(Operator::Tilde), 1) }
            else if c == ',' { (Some(Operator::Comma), 1) }
            else if c == ';' { (Some(Operator::Semicolon), 1) }
            else if c == '(' { (Some(Operator::LeftParen), 1) }
            else if c == ')' { (Some(Operator::RightParen), 1) }
            else if c == '{' { (Some(Operator::LeftBrace), 1) }
            else if c == '}' { (Some(Operator::RightBrace), 1) }
            else if c == '[' { (Some(Operator::LeftBracket), 1) }
            else if c == ']' { (Some(Operator::RightBracket), 1) }
            else { (None, 1) };
        let kind = match op {
            Some(o) => TokenKind::Operator(o),
            None => {
                let mut msg = str_to_string("unexpected character '");
                crate::text::push_char(&mut msg, c);
                crate::text::push_str(&mut msg, "'");
                proof {
                    assert(msg@ =~= "unexpected character '"@ + seq![c] + "'"@);
                }
                TokenKind::Error(msg)
            },
        };
        proof {
            assert(next == char_at(chars@, pos + 1));
            assert(third == char_at(chars@, pos + 2));
        }
        Scan { kind, end: pos + len, newlines: 0, column_after: 0 }
    }
}

/// Position bookkeeping for a token that spans lines: the line count and
/// the column after it are bounded by the characters it covers.
pub open spec fn line_count_ok(pos: usize, end: usize, newlines: usize, column_after: usize) -> bool {
    &&& newlines <= end - pos
    &&& 1 <= column_after <= end - pos + 1
}

/// All tokens of `source`, comments included.
pub fn lex(source: &str) -> (toks: Vec<Token>)
    ensures
        toks.len() <= source@.len(),
        toks.len() <= isize::MAX,
        forall|i: int| 0 <= i < toks.len() ==> token_wf(#[trigger] toks@[i]),
        in_source_order(toks@),
        tokens_view(toks@) == lexed(source@),
{
    let l = Lexer::new(source);
    l.tokenize()
}

} // verus!
