//! Structured lowering errors.
use vstd::prelude::*;

use crate::text::{push_decimal, push_str, str_to_string};

verus! {

/// A backend lowering error.
#[derive(Debug)]
pub enum LowerError {
    /// No insert block when one was required: the lowering site, the
    /// enclosing function when known, and a source line.
    MissingBlock { what: String, fn_name: Option<String>, line: Option<usize> },
    /// The layout of a nominal type could not be resolved.
    UnknownLayout { name: String },
    /// Any other lowering failure.
    Unsupported(String),
    /// An LLVM builder failure.
    Llvm(String),
}

impl LowerError {
    /// `lowering '<what>': no insert block`, with optional function and line.
    pub fn missing_block(what: &str, fn_name: Option<String>, line: Option<usize>) -> (e: Self)
        ensures
            e matches LowerError::MissingBlock { what: w, fn_name: f, line: l } && w@ == what@ && f == fn_name && l == line,
    {
        LowerError::MissingBlock { what: str_to_string(what), fn_name, line }
    }

    /// A layout failure, rendered as `UnknownLayout: <name>`.
    pub fn unknown_layout(name: &str) -> (e: Self)
        ensures
            e matches LowerError::UnknownLayout { name: n } && n@ == name@,
    {
        LowerError::UnknownLayout { name: str_to_string(name) }
    }

    /// Any other lowering failure.
    pub fn unsupported(msg: &str) -> (e: Self)
        ensures
            e matches LowerError::Unsupported(m) && m@ == msg@,
    {
        LowerError::Unsupported(str_to_string(msg))
    }

    /// An LLVM builder failure message.
    pub fn llvm(msg: &str) -> (e: Self)
        ensures
            e matches LowerError::Llvm(m) && m@ == msg@,
    {
        LowerError::Llvm(str_to_string(msg))
    }

    /// The error as text.
    pub fn render(&self) -> (s: String)
        ensures
            s@ == render_text(*self),
    {
        match self {
            LowerError::MissingBlock { what, fn_name, line } => {
                let mut s = str_to_string("lowering '");
                push_str(&mut s, what.as_str());
                push_str(&mut s, "'");
                match fn_name {
                    Some(f) => {
                        push_str(&mut s, " in function '");
                        push_str(&mut s, f.as_str());
                        push_str(&mut s, "'");
                    },
                    None => {},
                }
                match line {
                    Some(l) => {
                        push_str(&mut s, " at line ");
                        push_decimal(&mut s, *l as u64);
                    },
                    None => {},
                }
                push_str(&mut s, ": no insert block");
                proof {
                    reveal_strlit("lowering '");
                    reveal_strlit("'");
                    reveal_strlit(" in function '");
                    reveal_strlit(" at line ");
                    reveal_strlit(": no insert block");
                }
                assert(s@ =~= render_text(*self));
                s
            },
            LowerError::UnknownLayout { name } => {
                let mut s = str_to_string("UnknownLayout: ");
                push_str(&mut s, name.as_str());
                proof { reveal_strlit("UnknownLayout: "); }
                assert(s@ =~= render_text(*self));
                s
            },
            LowerError::Unsupported(m) => m.clone(),
            LowerError::Llvm(m) => m.clone(),
        }
    }
}

/// The text of a lowering error.
pub open spec fn render_text(e: LowerError) -> Seq<char> {
    match e {
        LowerError::MissingBlock { what, fn_name, line } => seq!['l', 'o', 'w', 'e', 'r', 'i', 'n', 'g', ' ', '\''] + what@
            + seq!['\''] + match fn_name {
            Some(f) => seq![' ', 'i', 'n', ' ', 'f', 'u', 'n', 'c', 't', 'i', 'o', 'n', ' ', '\''] + f@ + seq!['\''],
            None => Seq::empty(),
        } + match line {
            Some(l) => seq![' ', 'a', 't', ' ', 'l', 'i', 'n', 'e', ' '] + crate::text::decimal(l as nat),
            None => Seq::empty(),
        } + seq![':', ' ', 'n', 'o', ' ', 'i', 'n', 's', 'e', 'r', 't', ' ', 'b', 'l', 'o', 'c', 'k'],
        LowerError::UnknownLayout { name } => seq!['U', 'n', 'k', 'n', 'o', 'w', 'n', 'L', 'a', 'y', 'o', 'u', 't', ':', ' '] + name@,
        LowerError::Unsupported(m) => m@,
        LowerError::Llvm(m) => m@,
    }
}

impl From<String> for LowerError {
    fn from(value: String) -> (e: Self) {
        LowerError::Unsupported(value)
    }
}

impl vstd::std_specs::convert::FromSpecImpl<String> for LowerError {
    open spec fn obeys_from_spec() -> bool {
        true
    }

    open spec fn from_spec(v: String) -> Self {
        LowerError::Unsupported(v)
    }
}

impl<'a> From<&'a str> for LowerError {
    fn from(value: &'a str) -> (e: Self) {
        LowerError::unsupported(value)
    }
}

impl<'a> vstd::std_specs::convert::FromSpecImpl<&'a str> for LowerError {
    /// The message is a copy of the text, which a specification cannot build
    /// from a `&str`; `unsupported` states it.
    open spec fn obeys_from_spec() -> bool {
        false
    }

    open spec fn from_spec(v: &'a str) -> Self {
        LowerError::Unsupported(vstd::pervasive::arbitrary())
    }
}

} // verus!
