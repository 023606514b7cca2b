//! Tokens of the Fib language and the builtin names they carry.
use vstd::prelude::*;

verus! {

/// A name as written in the source.
#[derive(Debug, PartialEq, Eq, Hash)]
pub struct Identifier {
    pub value: String,
}

impl View for Identifier {
    type V = Seq<char>;

    open spec fn view(&self) -> Seq<char> {
        self.value@
    }
}

impl Identifier {
    /// A fresh identifier holding a copy of `s`.
    pub fn from_str(s: &str) -> (id: Identifier)
        ensures
            id@ == s@,
    {
        Identifier { value: crate::text::str_to_string(s) }
    }

    /// A copy of this identifier.
    pub fn copy(&self) -> (id: Identifier)
        ensures
            id@ == self@,
    {
        Identifier { value: self.value.clone() }
    }

    /// Whether two identifiers spell the same name.
    pub fn same(&self, other: &Identifier) -> (r: bool)
        ensures
            r == (self@ == other@),
    {
        self.value == other.value
    }
}

/// The `@`-prefixed builtin types. The number is the size in bytes; the
/// unnumbered `@int`/`@uint` spellings are the one-byte integers.
#[derive(Debug, Clone, Copy, PartialEq, Eq, Hash, Structural)]
pub enum BuiltinType {
    Int1,
    Int2,
    Int4,
    Int8,
    Int16,
    UInt1,
    UInt2,
    UInt4,
    UInt8,
    UInt16,
    Float2,
    Float4,
    Float8,
    Float16,
    Boolean,
    Char,
    String,
    Void,
    /// The type of `null` and of expressions that never produce a value; it
    /// unifies with every type.
    Never,
}

/// How a builtin type is written, e.g. `@int4`.
pub open spec fn builtin_spelling(b: BuiltinType) -> Seq<char> {
    match b {
        BuiltinType::Int1 => "@int"@,
        BuiltinType::Int2 => "@int2"@,
        BuiltinType::Int4 => "@int4"@,
        BuiltinType::Int8 => "@int8"@,
        BuiltinType::Int16 => "@int16"@,
        BuiltinType::UInt1 => "@uint"@,
        BuiltinType::UInt2 => "@uint2"@,
        BuiltinType::UInt4 => "@uint4"@,
        BuiltinType::UInt8 => "@uint8"@,
        BuiltinType::UInt16 => "@uint16"@,
        BuiltinType::Float2 => "@float2"@,
        BuiltinType::Float4 => "@float4"@,
        BuiltinType::Float8 => "@float8"@,
        BuiltinType::Float16 => "@float16"@,
        BuiltinType::Boolean => "@bool"@,
        BuiltinType::Char => "@char"@,
        BuiltinType::String => "@string"@,
        BuiltinType::Void => "@void"@,
        BuiltinType::Never => "@never"@,
    }
}

impl BuiltinType {
    /// The source spelling, e.g. `@int4`.
    pub fn spelling(self) -> (s: &'static str)
        ensures
            s@ == builtin_spelling(self),
    {
        match self {
            BuiltinType::Int1 => "@int",
            BuiltinType::Int2 => "@int2",
            BuiltinType::Int4 => "@int4",
            BuiltinType::Int8 => "@int8",
            BuiltinType::Int16 => "@int16",
            BuiltinType::UInt1 => "@uint",
            BuiltinType::UInt2 => "@uint2",
            BuiltinType::UInt4 => "@uint4",
            BuiltinType::UInt8 => "@uint8",
            BuiltinType::UInt16 => "@uint16",
            BuiltinType::Float2 => "@float2",
            BuiltinType::Float4 => "@float4",
            BuiltinType::Float8 => "@float8",
            BuiltinType::Float16 => "@float16",
            BuiltinType::Boolean => "@bool",
            BuiltinType::Char => "@char",
            BuiltinType::String => "@string",
            BuiltinType::Void => "@void",
            BuiltinType::Never => "@never",
        }
    }
}

/// The `@`-prefixed builtin string functions.
#[derive(Debug, Clone, Copy, PartialEq, Eq, Hash, Structural)]
pub enum BuiltinFunction {
    Concat,
    StrLen,
    StrEq,
}

/// How a builtin function is written, e.g. `@concat`.
pub open spec fn function_spelling(f: BuiltinFunction) -> Seq<char> {
    match f {
        BuiltinFunction::Concat => "@concat"@,
        BuiltinFunction::StrLen => "@str_len"@,
        BuiltinFunction::StrEq => "@str_eq"@,
    }
}

impl BuiltinFunction {
    /// The source spelling, e.g. `@concat`.
    pub fn spelling(self) -> (s: &'static str)
        ensures
            s@ == function_spelling(self),
    {
        match self {
            BuiltinFunction::Concat => "@concat",
            BuiltinFunction::StrLen => "@str_len",
            BuiltinFunction::StrEq => "@str_eq",
        }
    }
}

#[derive(Debug, Clone, Copy, PartialEq, Eq, Hash, Structural)]
pub enum Keyword {
    Function,
    Extern,
    Import,
    Type,
    Var,
    Return,
    If,
    Else,
    For,
    Break,
    Continue,
    Defer,
    Switch,
    When,
    As,
    Struct,
    Enum,
}

/// Operators and punctuation.
#[derive(Debug, Clone, Copy, PartialEq, Eq, Hash, Structural)]
pub enum Operator {
    Plus,
    Minus,
    Star,
    Slash,
    Percent,
    RightShift,
    LeftShift,
    Ampersand,
    Pipe,
    Caret,
    Tilde,
    GreaterThan,
    GreaterEqual,
    LesserThan,
    LesserEqual,
    DoubleEquals,
    Different,
    LogicalAnd,
    LogicalOr,
    LogicalNot,
    Equals,
    ColonEquals,
    Colon,
    DoubleColon,
    Comma,
    Semicolon,
    Dot,
    DotDot,
    DotEquals,
    Ellipsis,
    LeftParen,
    RightParen,
    LeftBrace,
    RightBrace,
    LeftBracket,
    RightBracket,
}

/// The name of an operator as messages show it, e.g. `DoubleEquals`.
pub open spec fn operator_name(op: Operator) -> Seq<char> {
    match op {
        Operator::Plus => "Plus"@,
        Operator::Minus => "Minus"@,
        Operator::Star => "Star"@,
        Operator::Slash => "Slash"@,
        Operator::Percent => "Percent"@,
        Operator::RightShift => "RightShift"@,
        Operator::LeftShift => "LeftShift"@,
        Operator::Ampersand => "Ampersand"@,
        Operator::Pipe => "Pipe"@,
        Operator::Caret => "Caret"@,
        Operator::Tilde => "Tilde"@,
        Operator::GreaterThan => "GreaterThan"@,
        Operator::GreaterEqual => "GreaterEqual"@,
        Operator::LesserThan => "LesserThan"@,
        Operator::LesserEqual => "LesserEqual"@,
        Operator::DoubleEquals => "DoubleEquals"@,
        Operator::Different => "Different"@,
        Operator::LogicalAnd => "LogicalAnd"@,
        Operator::LogicalOr => "LogicalOr"@,
        Operator::LogicalNot => "LogicalNot"@,
        Operator::Equals => "Equals"@,
        Operator::ColonEquals => "ColonEquals"@,
        Operator::Colon => "Colon"@,
        Operator::DoubleColon => "DoubleColon"@,
        Operator::Comma => "Comma"@,
        Operator::Semicolon => "Semicolon"@,
        Operator::Dot => "Dot"@,
        Operator::DotDot => "DotDot"@,
        Operator::DotEquals => "DotEquals"@,
        Operator::Ellipsis => "Ellipsis"@,
        Operator::LeftParen => "LeftParen"@,
        Operator::RightParen => "RightParen"@,
        Operator::LeftBrace => "LeftBrace"@,
        Operator::RightBrace => "RightBrace"@,
        Operator::LeftBracket => "LeftBracket"@,
        Operator::RightBracket => "RightBracket"@,
    }
}

impl Operator {
    /// The name of the operator, as `operator_name` gives it.
    pub fn name(self) -> (s: &'static str)
        ensures
            s@ == operator_name(self),
    {
        match self {
            Operator::Plus => "Plus",
            Operator::Minus => "Minus",
            Operator::Star => "Star",
            Operator::Slash => "Slash",
            Operator::Percent => "Percent",
            Operator::RightShift => "RightShift",
            Operator::LeftShift => "LeftShift",
            Operator::Ampersand => "Ampersand",
            Operator::Pipe => "Pipe",
            Operator::Caret => "Caret",
            Operator::Tilde => "Tilde",
            Operator::GreaterThan => "GreaterThan",
            Operator::GreaterEqual => "GreaterEqual",
            Operator::LesserThan => "LesserThan",
            Operator::LesserEqual => "LesserEqual",
            Operator::DoubleEquals => "DoubleEquals",
            Operator::Different => "Different",
            Operator::LogicalAnd => "LogicalAnd",
            Operator::LogicalOr => "LogicalOr",
            Operator::LogicalNot => "LogicalNot",
            Operator::Equals => "Equals",
            Operator::ColonEquals => "ColonEquals",
            Operator::Colon => "Colon",
            Operator::DoubleColon => "DoubleColon",
            Operator::Comma => "Comma",
            Operator::Semicolon => "Semicolon",
            Operator::Dot => "Dot",
            Operator::DotDot => "DotDot",
            Operator::DotEquals => "DotEquals",
            Operator::Ellipsis => "Ellipsis",
            Operator::LeftParen => "LeftParen",
            Operator::RightParen => "RightParen",
            Operator::LeftBrace => "LeftBrace",
            Operator::RightBrace => "RightBrace",
            Operator::LeftBracket => "LeftBracket",
            Operator::RightBracket => "RightBracket",
        }
    }
}

/// Literal values. A float literal keeps its source text (digits and one
/// dot); its numeric value is the backend's business.
#[derive(Debug, PartialEq)]
pub enum Literal {
    Integer(u64),
    Float(String),
    Boolean(bool),
    Character(char),
    /// The raw text between the quotes, escapes not yet processed.
    String(String),
    Null,
}

#[derive(Debug, PartialEq)]
pub enum TokenKind {
    Identifier(Identifier),
    Keyword(Keyword),
    Operator(Operator),
    Literal(Literal),
    BuiltinType(BuiltinType),
    BuiltinFunction(BuiltinFunction),
    Comment,
    /// A lexical error, with its message.
    Error(String),
}

/// A token with the 1-based line and column of its first character.
#[derive(Debug, PartialEq)]
pub struct Token {
    pub kind: TokenKind,
    pub line: usize,
    pub column: usize,
}

impl Clone for Identifier {
    fn clone(&self) -> (r: Self)
        ensures
            r == *self,
    {
        Identifier { value: self.value.clone() }
    }
}

impl Clone for Literal {
    fn clone(&self) -> (r: Self)
        ensures
            r == *self,
    {
        match self {
            Literal::Integer(v) => Literal::Integer(*v),
            Literal::Float(t) => Literal::Float(t.clone()),
            Literal::Boolean(b) => Literal::Boolean(*b),
            Literal::Character(c) => Literal::Character(*c),
            Literal::String(t) => Literal::String(t.clone()),
            Literal::Null => Literal::Null,
        }
    }
}

impl Clone for TokenKind {
    fn clone(&self) -> (r: Self)
        ensures
            r == *self,
    {
        match self {
            TokenKind::Identifier(id) => TokenKind::Identifier(id.clone()),
            TokenKind::Keyword(k) => TokenKind::Keyword(*k),
            TokenKind::Operator(o) => TokenKind::Operator(*o),
            TokenKind::Literal(l) => TokenKind::Literal(l.clone()),
            TokenKind::BuiltinType(b) => TokenKind::BuiltinType(*b),
            TokenKind::BuiltinFunction(f) => TokenKind::BuiltinFunction(*f),
            TokenKind::Comment => TokenKind::Comment,
            TokenKind::Error(m) => TokenKind::Error(m.clone()),
        }
    }
}

impl Clone for Token {
    fn clone(&self) -> (r: Self)
        ensures
            r == *self,
    {
        Token { kind: self.kind.clone(), line: self.line, column: self.column }
    }
}

} // verus!
