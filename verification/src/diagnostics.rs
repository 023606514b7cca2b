//! Structured compiler diagnostics. Every stage (lexer errors through the
//! parser, analyzer, driver) promotes into [`CompilerError`], rendered as
//!
//! ```text
//! error[type]: assignment to immutable variable `x`
//!   --> samples/foo.fib:5:3
//!    |
//!  5 |   x = 2;
//!    |   ^
//!    = help: declare `x` as mutable
//! ```
use vstd::prelude::*;

use crate::text::{decimal, push_char, push_decimal, push_str, str_to_string};

verus! {

/// 1-based start position of a token or node in the source.
#[derive(Debug, Clone, Copy, PartialEq, Eq, Structural)]
pub struct Span {
    pub line: usize,
    pub column: usize,
}

impl Span {
    pub fn new(line: usize, column: usize) -> (s: Self)
        ensures
            s.line == line,
            s.column == column,
    {
        Span { line, column }
    }
}

/// Broad category of a compiler error: the leading tag of a rendered
/// diagnostic.
#[derive(Debug, Clone, Copy, PartialEq, Eq, Structural)]
pub enum ErrorKind {
    /// Filesystem / IO failures.
    Io,
    /// A lexical error.
    Lex,
    /// A grammar error.
    Parse,
    /// Name resolution failures (undefined identifiers, imports, modules).
    Name,
    /// Type checking / coercion failures.
    Type,
    /// Backend failures.
    Backend,
    /// Toolchain / environment failures.
    Toolchain,
}

pub open spec fn kind_tag(k: ErrorKind) -> Seq<char> {
    match k {
        ErrorKind::Io => seq!['i', 'o'],
        ErrorKind::Lex => seq!['l', 'e', 'x'],
        ErrorKind::Parse => seq!['p', 'a', 'r', 's', 'e'],
        ErrorKind::Name => seq!['n', 'a', 'm', 'e'],
        ErrorKind::Type => seq!['t', 'y', 'p', 'e'],
        ErrorKind::Backend => seq!['b', 'a', 'c', 'k', 'e', 'n', 'd'],
        ErrorKind::Toolchain => seq!['t', 'o', 'o', 'l', 'c', 'h', 'a', 'i', 'n'],
    }
}

impl ErrorKind {
    /// The tag shown as `error[<tag>]`.
    pub fn tag(self) -> (s: &'static str)
        ensures
            s@ == kind_tag(self),
    {
        match self {
            ErrorKind::Io => {
                proof { reveal_strlit("io"); }
                "io"
            },
            ErrorKind::Lex => {
                proof { reveal_strlit("lex"); }
                "lex"
            },
            ErrorKind::Parse => {
                proof { reveal_strlit("parse"); }
                "parse"
            },
            ErrorKind::Name => {
                proof { reveal_strlit("name"); }
                "name"
            },
            ErrorKind::Type => {
                proof { reveal_strlit("type"); }
                "type"
            },
            ErrorKind::Backend => {
                proof { reveal_strlit("backend"); }
                "backend"
            },
            ErrorKind::Toolchain => {
                proof { reveal_strlit("toolchain"); }
                "toolchain"
            },
        }
    }
}

/// A structured compiler error: a kind, a message, an optional start
/// position and remedy hint, and the render context (file and source line)
/// attached when the driver has the source text.
#[derive(Debug, Clone)]
pub struct CompilerError {
    pub kind: ErrorKind,
    pub message: String,
    pub span: Option<Span>,
    pub hint: Option<String>,
    pub filename: Option<String>,
    pub source_line: Option<String>,
}

/// `error[<tag>]: <message>`
pub open spec fn header_text(kind: ErrorKind, message: Seq<char>) -> Seq<char> {
    seq!['e', 'r', 'r', 'o', 'r', '['] + kind_tag(kind) + seq![']', ':', ' '] + message
}

/// `\n  = help: <hint>` (plain rendering) or `\n   = help: <hint>` (panel).
pub open spec fn help_text(indent: nat, hint: Seq<char>) -> Seq<char> {
    seq!['\n'] + Seq::new(indent, |i: int| ' ') + seq!['=', ' ', 'h', 'e', 'l', 'p', ':', ' '] + hint
}

/// The rendering without a position: the header plus the hint, if any.
pub open spec fn plain_text(e: CompilerError) -> Seq<char> {
    header_text(e.kind, e.message@) + match e.hint {
        Some(h) => help_text(2, h@),
        None => Seq::empty(),
    }
}

/// `\n  --> <file>:<line>:<column>`
pub open spec fn location_text(file: Seq<char>, span: Span) -> Seq<char> {
    seq!['\n', ' ', ' ', '-', '-', '>', ' '] + file + seq![':'] + decimal(span.line as nat) + seq![':']
        + decimal(span.column as nat)
}

/// The number rendered right-aligned in a field of width 3.
pub open spec fn padded3(n: nat) -> Seq<char> {
    Seq::new(if decimal(n).len() < 3 { (3 - decimal(n).len()) as nat } else { 0 }, |i: int| ' ') + decimal(n)
}

/// `\n   |\n <line> | <source>\n   | <spaces>^` with the caret under the column.
pub open spec fn caret_text(span: Span, src: Seq<char>) -> Seq<char> {
    seq!['\n', ' ', ' ', ' ', '|', '\n', ' '] + padded3(span.line as nat) + seq![' ', '|', ' '] + src
        + seq!['\n', ' ', ' ', ' ', '|', ' ']
        + Seq::new(if span.column >= 1 { (span.column - 1) as nat } else { 0 }, |i: int| ' ') + seq!['^']
}

/// The caret stands under the error's column: the panel's last line is
/// `   | ` followed by `column - 1` spaces and `^`, so that `^` is the
/// column-th character after the gutter, where the source line's
/// column-th character stands in the line above.
pub proof fn lemma_caret_under_column(span: Span, src: Seq<char>)
    requires
        span.column >= 1,
    ensures
        caret_text(span, src).len() >= span.column + 6,
        caret_text(span, src)[caret_text(span, src).len() - 1] == '^',
        forall|j: int| caret_text(span, src).len() - span.column <= j < caret_text(span, src).len() - 1
            ==> #[trigger] caret_text(span, src)[j] == ' ',
        caret_text(span, src).subrange(
            caret_text(span, src).len() - span.column - 6,
            caret_text(span, src).len() - span.column,
        ) == seq!['\n', ' ', ' ', ' ', '|', ' '],
{
    let t = caret_text(span, src);
    let head = seq!['\n', ' ', ' ', ' ', '|', '\n', ' '] + padded3(span.line as nat) + seq![' ', '|', ' '] + src
        + seq!['\n', ' ', ' ', ' ', '|', ' '];
    let pad = Seq::new((span.column - 1) as nat, |i: int| ' ');
    assert(t == head + pad + seq!['^']);
    let k = head.len();
    assert(t.len() == k + span.column);
    assert forall|j: int| t.len() - span.column <= j < t.len() - 1 implies #[trigger] t[j] == ' ' by {
        assert(t[j] == pad[j - k]);
    }
    assert(t.subrange(k - 6, k as int) =~= head.subrange(k - 6, k as int));
    assert(head.subrange(k - 6, k as int) =~= seq!['\n', ' ', ' ', ' ', '|', ' ']);
}

/// The full rendering of a diagnostic with a position.
pub open spec fn panel_text(e: CompilerError, span: Span) -> Seq<char> {
    header_text(e.kind, e.message@) + location_text(
        match e.filename {
            Some(f) => f@,
            None => seq!['<', 'u', 'n', 'k', 'n', 'o', 'w', 'n', '>'],
        },
        span,
    ) + match e.source_line {
        Some(src) => caret_text(span, src@),
        None => Seq::empty(),
    } + match e.hint {
        Some(h) => help_text(3, h@),
        None => Seq::empty(),
    }
}

/// A rendered panel with a source line and no help ends with its caret line:
/// `   | `, then `column - 1` spaces, then `^` under the column.
pub proof fn lemma_panel_caret(e: CompilerError, span: Span)
    requires
        span.column >= 1,
        e.source_line is Some,
        e.hint is None,
    ensures
        panel_text(e, span).len() >= span.column + 6,
        panel_text(e, span)[panel_text(e, span).len() - 1] == '^',
        forall|j: int| panel_text(e, span).len() - span.column <= j < panel_text(e, span).len() - 1
            ==> #[trigger] panel_text(e, span)[j] == ' ',
        panel_text(e, span).subrange(
            panel_text(e, span).len() - span.column - 6,
            panel_text(e, span).len() - span.column,
        ) == seq!['\n', ' ', ' ', ' ', '|', ' '],
{
    let src = e.source_line->Some_0@;
    let c = caret_text(span, src);
    lemma_caret_under_column(span, src);
    let pre = header_text(e.kind, e.message@) + location_text(
        match e.filename {
            Some(f) => f@,
            None => seq!['<', 'u', 'n', 'k', 'n', 'o', 'w', 'n', '>'],
        },
        span,
    );
    let t = panel_text(e, span);
    assert(t =~= pre + c);
    assert forall|j: int| t.len() - span.column <= j < t.len() - 1 implies #[trigger] t[j] == ' ' by {
        assert(t[j] == c[j - pre.len()]);
    }
    assert(t.subrange(t.len() - span.column - 6, t.len() - span.column) =~= c.subrange(
        c.len() - span.column - 6,
        c.len() - span.column,
    ));
}

fn push_spaces(s: &mut String, n: usize)
    ensures
        final(s)@ == old(s)@ + Seq::new(n as nat, |i: int| ' '),
{
    let mut i: usize = 0;
    while i < n
        invariant
            0 <= i <= n,
            s@ == old(s)@ + Seq::new(i as nat, |k: int| ' '),
        decreases n - i,
    {
        push_char(s, ' ');
        i = i + 1;
        assert(s@ =~= old(s)@ + Seq::new(i as nat, |k: int| ' '));
    }
}

impl CompilerError {
    pub fn new(kind: ErrorKind, message: String) -> (e: Self)
        ensures
            e.kind == kind,
            e.message == message,
            e.span is None,
            e.hint is None,
            e.filename is None,
            e.source_line is None,
    {
        CompilerError { kind, message, span: None, hint: None, filename: None, source_line: None }
    }

    pub fn with_span(self, span: Span) -> (e: Self)
        ensures
            e == (CompilerError { span: Some(span), ..self }),
    {
        CompilerError { span: Some(span), ..self }
    }

    pub fn at(self, line: usize, column: usize) -> (e: Self)
        ensures
            e == (CompilerError { span: Some(Span { line, column }), ..self }),
    {
        CompilerError { span: Some(Span::new(line, column)), ..self }
    }

    pub fn with_hint(self, hint: &str) -> (e: Self)
        ensures
            e.hint matches Some(h) && h@ == hint@,
            e.kind == self.kind,
            e.message == self.message,
            e.span == self.span,
            e.filename == self.filename,
            e.source_line == self.source_line,
    {
        CompilerError { hint: Some(str_to_string(hint)), ..self }
    }

    /// Attach the render context: the file being compiled and the text of
    /// the offending source line.
    pub fn with_source(self, filename: &str, source_line: &str) -> (e: Self)
        ensures
            e.filename matches Some(f) && f@ == filename@,
            e.source_line matches Some(l) && l@ == source_line@,
            e.kind == self.kind,
            e.message == self.message,
            e.span == self.span,
            e.hint == self.hint,
    {
        CompilerError { filename: Some(str_to_string(filename)), source_line: Some(str_to_string(source_line)), ..self }
    }

    /// The leading line, e.g. `error[type]: assignment to immutable variable`.
    pub fn header(&self) -> (s: String)
        ensures
            s@ == header_text(self.kind, self.message@),
    {
        let mut out = str_to_string("error[");
        push_str(&mut out, self.kind.tag());
        push_str(&mut out, "]: ");
        push_str(&mut out, self.message.as_str());
        proof {
            reveal_strlit("error[");
            reveal_strlit("]: ");
        }
        assert(out@ =~= header_text(self.kind, self.message@));
        out
    }

    fn push_help(&self, out: &mut String, indent: usize)
        requires
            indent == 2 || indent == 3,
        ensures
            final(out)@ == old(out)@ + match self.hint {
                Some(h) => help_text(indent as nat, h@),
                None => Seq::empty(),
            },
    {
        match &self.hint {
            Some(h) => {
                push_char(out, '\n');
                push_spaces(out, indent);
                push_str(out, "= help: ");
                push_str(out, h.as_str());
                proof { reveal_strlit("= help: "); }
                assert(out@ =~= old(out)@ + help_text(indent as nat, h@));
            },
            None => {
                assert(out@ =~= old(out)@ + Seq::<char>::empty());
            },
        }
    }

    /// Rendering used when no source position is known: header plus hint.
    fn render_plain(&self) -> (s: String)
        ensures
            s@ == plain_text(*self),
    {
        let mut out = self.header();
        self.push_help(&mut out, 2);
        out
    }

    /// Render the diagnostic: a rustc-style panel when the position is known,
    /// the plain rendering otherwise.
    pub fn render(&self) -> (s: String)
        ensures
            s@ == match self.span {
                Some(span) => panel_text(*self, span),
                None => plain_text(*self),
            },
    {
        let span = match self.span {
            Some(sp) => sp,
            None => {
                return self.render_plain();
            },
        };
        let mut out = self.header();
        let ghost h = out@;
        match &self.filename {
            Some(f) => push_location(&mut out, f.as_str(), span),
            None => {
                proof { reveal_strlit("<unknown>"); }
                push_location(&mut out, "<unknown>", span);
            },
        }
        let ghost l = out@;
        match &self.source_line {
            Some(src) => push_caret(&mut out, span, src.as_str()),
            None => {
                assert(out@ =~= l + Seq::<char>::empty());
            },
        }
        let ghost c = out@;
        self.push_help(&mut out, 3);
        assert(out@ =~= panel_text(*self, span));
        out
    }
}

fn push_location(out: &mut String, file: &str, span: Span)
    ensures
        final(out)@ == old(out)@ + location_text(file@, span),
{
    push_str(out, "\n  --> ");
    push_str(out, file);
    push_char(out, ':');
    push_decimal(out, span.line as u64);
    push_char(out, ':');
    push_decimal(out, span.column as u64);
    proof { reveal_strlit("\n  --> "); }
    assert(out@ =~= old(out)@ + location_text(file@, span));
}

fn push_caret(out: &mut String, span: Span, src: &str)
    ensures
        final(out)@ == old(out)@ + caret_text(span, src@),
{
    push_str(out, "\n   |\n ");
    let line_text = crate::text::usize_to_string(span.line);
    let width = line_text.as_str().unicode_len();
    let ghost a = out@;
    if width < 3 {
        push_spaces(out, 3 - width);
    } else {
        push_spaces(out, 0);
    }
    push_str(out, line_text.as_str());
    assert(out@ =~= a + padded3(span.line as nat));
    push_str(out, " | ");
    push_str(out, src);
    push_str(out, "\n   | ");
    let pad = if span.column >= 1 { span.column - 1 } else { 0 };
    push_spaces(out, pad);
    push_char(out, '^');
    proof {
        reveal_strlit("\n   |\n ");
        reveal_strlit(" | ");
        reveal_strlit("\n   | ");
    }
    assert(out@ =~= old(out)@ + caret_text(span, src@));
}

/// The 1-based line `line` of `source` (lines split at `\n`, with a `\r`
/// before the `\n` dropped), or `None` when there is no such line.
pub open spec fn nth_line(source: Seq<char>, line: nat) -> Option<Seq<char>>
    decreases source.len(),
{
    if line == 0 || source.len() == 0 {
        None
    } else {
        let nl = first_newline(source);
        proof { lemma_first_newline(source); }
        if line == 1 {
            Some(strip_cr(source.subrange(0, nl)))
        } else if nl < source.len() {
            nth_line(source.subrange(nl + 1, source.len() as int), (line - 1) as nat)
        } else {
            None
        }
    }
}

/// Index of the first `\n` in `s`, or `s.len()` when there is none.
pub open spec fn first_newline(s: Seq<char>) -> int
    decreases s.len(),
{
    if s.len() == 0 {
        0
    } else if s[0] == '\n' {
        0
    } else {
        1 + first_newline(s.subrange(1, s.len() as int))
    }
}

pub open spec fn strip_cr(s: Seq<char>) -> Seq<char> {
    if s.len() > 0 && s.last() == '\r' { s.drop_last() } else { s }
}

pub proof fn lemma_first_newline(s: Seq<char>)
    ensures
        0 <= first_newline(s) <= s.len(),
        first_newline(s) < s.len() ==> s[first_newline(s)] == '\n',
        forall|i: int| 0 <= i < first_newline(s) ==> s[i] != '\n',
    decreases s.len(),
{
    if s.len() > 0 && s[0] != '\n' {
        let t = s.subrange(1, s.len() as int);
        lemma_first_newline(t);
        assert forall|i: int| 0 <= i < first_newline(s) implies s[i] != '\n' by {
            if i > 0 {
                assert(s[i] == t[i - 1]);
            }
        }
    }
}

/// Extract a single 1-based source line (without its line terminator) for
/// the diagnostic caret panel.
pub fn source_line_at(source: &str, line: usize) -> (r: Option<String>)
    ensures
        match r {
            Some(s) => nth_line(source@, line as nat) == Some(s@),
            None => nth_line(source@, line as nat) is None,
        },
{
    let chars = crate::text::str_to_chars(source);
    if line == 0 {
        return None;
    }
    let n = chars.len();
    let mut start: usize = 0;
    let mut k: usize = 1;
    assert(chars@.subrange(0, n as int) =~= chars@);
    // Invariant: the remaining text from `start` holds line `line - k + 1` of
    // the original as its line `1`.
    while k < line
        invariant
            1 <= k <= line,
            start <= n,
            n == chars@.len(),
            nth_line(source@, line as nat) == nth_line(chars@.subrange(start as int, n as int), (line - k + 1) as nat),
        decreases line - k,
    {
        let ghost rest = chars@.subrange(start as int, n as int);
        if start >= n {
            return None;
        }
        let mut j = start;
        while j < n && chars[j] != '\n'
            invariant
                start <= j <= n,
                n == chars@.len(),
                forall|i: int| start <= i < j ==> chars@[i] != '\n',
            decreases n - j,
        {
            j = j + 1;
        }
        proof {
            lemma_first_newline(rest);
            lemma_first_newline_exact(rest, j - start);
        }
        if j >= n {
            return None;
        }
        assert(rest.subrange((j - start + 1) as int, rest.len() as int) =~= chars@.subrange(j + 1, n as int));
        start = j + 1;
        k = k + 1;
    }
    let ghost rest = chars@.subrange(start as int, n as int);
    if start >= n {
        return None;
    }
    let mut j = start;
    while j < n && chars[j] != '\n'
        invariant
            start <= j <= n,
            n == chars@.len(),
            forall|i: int| start <= i < j ==> chars@[i] != '\n',
        decreases n - j,
    {
        j = j + 1;
    }
    proof {
        lemma_first_newline(rest);
        lemma_first_newline_exact(rest, j - start);
    }
    let end = if j > start && chars[j - 1] == '\r' { j - 1 } else { j };
    assert(rest.subrange(0, (j - start) as int) =~= chars@.subrange(start as int, j as int));
    assert(strip_cr(chars@.subrange(start as int, j as int)) =~= chars@.subrange(start as int, end as int));
    Some(crate::text::chars_to_string(&chars, start, end))
}

proof fn lemma_first_newline_exact(s: Seq<char>, j: int)
    requires
        0 <= j <= s.len(),
        forall|i: int| 0 <= i < j ==> s[i] != '\n',
        j < s.len() ==> s[j] == '\n',
    ensures
        first_newline(s) == j,
{
    lemma_first_newline(s);
}


impl From<crate::frontend::parser::ParseError> for CompilerError {
    fn from(pe: crate::frontend::parser::ParseError) -> (e: Self) {
        CompilerError {
            kind: ErrorKind::Parse,
            message: pe.message,
            span: Some(Span::new(pe.line, pe.column)),
            hint: None,
            filename: Some(pe.filename),
            source_line: Some(pe.source_line),
        }
    }
}

impl vstd::std_specs::convert::FromSpecImpl<crate::frontend::parser::ParseError> for CompilerError {
    open spec fn obeys_from_spec() -> bool {
        true
    }

    open spec fn from_spec(pe: crate::frontend::parser::ParseError) -> Self {
        CompilerError {
            kind: ErrorKind::Parse,
            message: pe.message,
            span: Some(Span { line: pe.line, column: pe.column }),
            hint: None,
            filename: Some(pe.filename),
            source_line: Some(pe.source_line),
        }
    }
}

impl From<crate::frontend::analyze::AnalysisError> for CompilerError {
    fn from(ae: crate::frontend::analyze::AnalysisError) -> (e: Self) {
        CompilerError {
            kind: ae.kind,
            message: ae.message,
            span: ae.span,
            hint: ae.hint,
            filename: None,
            source_line: None,
        }
    }
}

impl vstd::std_specs::convert::FromSpecImpl<crate::frontend::analyze::AnalysisError> for CompilerError {
    open spec fn obeys_from_spec() -> bool {
        true
    }

    open spec fn from_spec(ae: crate::frontend::analyze::AnalysisError) -> Self {
        CompilerError {
            kind: ae.kind,
            message: ae.message,
            span: ae.span,
            hint: ae.hint,
            filename: None,
            source_line: None,
        }
    }
}
} // verus!
