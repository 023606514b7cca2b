//! Recursive-descent parser from tokens to the syntax tree.
//!
//! Every parsing function takes the position of its first token and returns
//! the parsed node with the position just after it; every construct consumes
//! at least one token, which is what makes the recursion terminate.
#![verifier::loop_isolation(false)]

use vstd::prelude::*;

use crate::diagnostics::Span;
use crate::frontend::ast::{
    Ast, DeclarationNode, EnumVariant, Expression, ExpressionKind, Field, FunctionBody, FunctionDeclaration,
    FunctionParameter, FunctionSignature, ImportDeclaration, Pattern, Statement, StatementKind, SwitchArm,
    TypeDeclaration, TypeExpression, TypeExpressionKind, VariableDeclaration,
};
use crate::frontend::tokens::{Identifier, Keyword, Literal, Operator, Token, TokenKind};
use crate::text::str_to_string;

verus! {

/// A grammar error at a source position, with the text of that line.
#[derive(Debug, Clone)]
pub struct ParseError {
    pub filename: String,
    pub message: String,
    pub line: usize,
    pub column: usize,
    pub source_line: String,
}

/// What a top-level item starts with: `import`, `fn`, `extern`, `type`, or a
/// stray `;`.
pub open spec fn starts_declaration(k: TokenKind) -> bool {
    k == TokenKind::Keyword(Keyword::Import) || k == TokenKind::Keyword(Keyword::Function)
        || k == TokenKind::Keyword(Keyword::Extern) || k == TokenKind::Keyword(Keyword::Type)
        || k == TokenKind::Operator(Operator::Semicolon)
}

/// Where the simplest declaration that starts at `pos` ends: a stray `;`,
/// `import a`, `type N T` with a one-token type `T`, `fn f();` or
/// `fn f() {}`, each with its optional `;`. `None` for any other start.
pub open spec fn simple_decl_end(t: Seq<Token>, pos: int) -> Option<int> {
    if op_at(t, pos, Operator::Semicolon) {
        Some(pos + 1)
    } else if kw_at(t, pos, Keyword::Import) && ident_tok(t, pos + 1) is Some && !op_at(t, pos + 2, Operator::DoubleColon)
        && !kw_at(t, pos + 2, Keyword::As) {
        Some(if op_at(t, pos + 2, Operator::Semicolon) { pos + 3 } else { pos + 2 })
    } else if kw_at(t, pos, Keyword::Type) && ident_tok(t, pos + 1) is Some && simple_type(t, pos + 2) is Some
        && !op_at(t, pos + 3, Operator::LeftBracket) {
        Some(if op_at(t, pos + 3, Operator::Semicolon) { pos + 4 } else { pos + 3 })
    } else if kw_at(t, pos, Keyword::Function) && ident_tok(t, pos + 1) is Some && op_at(t, pos + 2, Operator::LeftParen)
        && op_at(t, pos + 3, Operator::RightParen) {
        if op_at(t, pos + 4, Operator::Semicolon) {
            Some(pos + 5)
        } else if op_at(t, pos + 4, Operator::LeftBrace) && op_at(t, pos + 5, Operator::RightBrace) {
            Some(pos + 6)
        } else {
            None
        }
    } else {
        None
    }
}

/// From `pos`, the simplest declarations follow one another up to `q`.
pub open spec fn simple_reach(t: Seq<Token>, pos: int, q: int) -> bool
    decreases t.len() - pos,
{
    if pos == q {
        true
    } else if pos < 0 || pos >= t.len() || pos > q {
        false
    } else {
        match simple_decl_end(t, pos) {
            Some(e) => pos < e && simple_reach(t, e, q),
            None => false,
        }
    }
}

/// The text of line `line` of `source`, empty past its end.
pub open spec fn line_text(source: Seq<char>, line: usize) -> Seq<char> {
    match crate::diagnostics::nth_line(source, line as nat) {
        Some(l) => l,
        None => Seq::empty(),
    }
}

/// The declaration `d` is the one that the keyword `k` introduces: `import`
/// an import, `fn` a function, `extern` a body-less extern function, `type`
/// a type declaration.
pub open spec fn introduces(k: TokenKind, d: DeclarationNode) -> bool {
    match d {
        DeclarationNode::ImportDeclaration(_) => k == TokenKind::Keyword(Keyword::Import),
        DeclarationNode::FunctionDeclaration(f) => (k == TokenKind::Keyword(Keyword::Function) && !f.is_extern)
            || (k == TokenKind::Keyword(Keyword::Extern) && f.is_extern && f.body is None),
        DeclarationNode::TypeDeclaration(_) => k == TokenKind::Keyword(Keyword::Type),
    }
}

/// The declarations start, in order, at increasing token positions, each at
/// the keyword that introduces it.
pub open spec fn declarations_introduced(tokens: Seq<Token>, decls: Seq<DeclarationNode>) -> bool {
    exists|starts: Seq<int>| #[trigger] starts.len() == decls.len() && starts_introduce(tokens, decls, starts)
}

/// `starts` gives, for each declaration, the position of its keyword.
pub open spec fn starts_introduce(tokens: Seq<Token>, decls: Seq<DeclarationNode>, starts: Seq<int>) -> bool {
    &&& starts.len() == decls.len()
    &&& forall|i: int, j: int| 0 <= i < j < starts.len() ==> starts[i] < starts[j]
    &&& forall|k: int| 0 <= k < starts.len() ==> 0 <= #[trigger] starts[k] < tokens.len()
        && introduces(tokens[starts[k]].kind, decls[k])
}

/// Whether a token of kind `k` can start a type expression.
pub open spec fn type_start(k: TokenKind) -> bool {
    match k {
        TokenKind::BuiltinType(_) | TokenKind::Identifier(_) => true,
        TokenKind::Operator(op) => op == Operator::Star || op == Operator::LeftParen,
        TokenKind::Keyword(kw) => kw == Keyword::Struct || kw == Keyword::Enum || kw == Keyword::Function
            || kw == Keyword::Type,
        _ => false,
    }
}

/// The token at `pos` is the operator `op`.
pub open spec fn op_at(tokens: Seq<Token>, pos: int, op: Operator) -> bool {
    0 <= pos < tokens.len() && tokens[pos].kind == TokenKind::Operator(op)
}

/// The length in bytes `str::len` reports for the text `s`.
pub open spec fn byte_len(s: Seq<char>) -> nat {
    (vstd::utf8::encode_utf8(s).len() as usize) as nat
}

/// `n` spaces.
pub open spec fn spaces(n: nat) -> Seq<char> {
    Seq::new(n, |i: int| ' ')
}

/// The text of a parse error: `"file":line:column:`, the message, the source
/// line and a caret under the column, each on a line of its own, the last
/// two indented by a tab. The caret is indented by `column - 1`, at most
/// the byte length of the source line.
pub open spec fn parse_error_text(e: ParseError) -> Seq<char> {
    let bytes = byte_len(e.source_line@);
    let indent = if e.column == 0 {
        0nat
    } else if e.column - 1 <= bytes {
        (e.column - 1) as nat
    } else {
        bytes
    };
    crate::driver::paths::path_debug(e.filename@) + ":"@ + crate::text::decimal(e.line as nat) + ":"@
        + crate::text::decimal(e.column as nat) + ":\n"@ + e.message@ + "\n\t"@ + e.source_line@ + "\n\t"@
        + spaces(indent) + "^\n"@
}

impl ParseError {
    /// The error as text, the way a terminal shows it.
    pub fn describe(&self) -> (s: String)
        ensures
            s@ == parse_error_text(*self),
    {
        let mut s = crate::driver::paths::path_debug_text(self.filename.as_str());
        crate::text::push_str(&mut s, ":");
        crate::text::push_decimal(&mut s, self.line as u64);
        crate::text::push_str(&mut s, ":");
        crate::text::push_decimal(&mut s, self.column as u64);
        crate::text::push_str(&mut s, ":\n");
        crate::text::push_str(&mut s, self.message.as_str());
        crate::text::push_str(&mut s, "\n\t");
        crate::text::push_str(&mut s, self.source_line.as_str());
        crate::text::push_str(&mut s, "\n\t");
        let bytes = self.source_line.as_str().len();
        assert(bytes == byte_len(self.source_line@));
        let indent = if self.column == 0 {
            0
        } else if self.column - 1 <= bytes {
            self.column - 1
        } else {
            bytes
        };
        let mut k: usize = 0;
        let ghost base = s@;
        while k < indent
            invariant
                k <= indent,
                s@ == base + spaces(k as nat),
            decreases indent - k,
        {
            crate::text::push_char(&mut s, ' ');
            proof {
                assert(s@ =~= base + spaces((k + 1) as nat));
            }
            k = k + 1;
        }
        crate::text::push_str(&mut s, "^\n");
        assert(s@ =~= parse_error_text(*self));
        s
    }
}

pub type ParseResult<T> = Result<T, ParseError>;

pub struct Parser {
    /// The tokens to parse, comments removed.
    tokens: Vec<Token>,
    filename: String,
    source: String,
}

/// The tokens that are not comments, in order.
pub open spec fn without_comments(toks: Seq<Token>) -> Seq<Token>
    decreases toks.len(),
{
    if toks.len() == 0 {
        Seq::empty()
    } else if toks.last().kind is Comment {
        without_comments(toks.drop_last())
    } else {
        without_comments(toks.drop_last()).push(toks.last())
    }
}

pub proof fn lemma_without_comments_len(toks: Seq<Token>)
    ensures
        without_comments(toks).len() <= toks.len(),
    decreases toks.len(),
{
    if toks.len() > 0 {
        lemma_without_comments_len(toks.drop_last());
    }
}

/// Binary operator precedence levels, loosest first.
pub open spec fn level_ops(level: nat) -> Seq<Operator> {
    if level == 0 { seq![Operator::LogicalOr] }
    else if level == 1 { seq![Operator::LogicalAnd] }
    else if level == 2 { seq![Operator::Pipe] }
    else if level == 3 { seq![Operator::Caret] }
    else if level == 4 { seq![Operator::Ampersand] }
    else if level == 5 { seq![Operator::DoubleEquals, Operator::Different] }
    else if level == 6 { seq![Operator::LesserThan, Operator::LesserEqual, Operator::GreaterThan, Operator::GreaterEqual] }
    else if level == 7 { seq![Operator::LeftShift, Operator::RightShift] }
    else if level == 8 { seq![Operator::Plus, Operator::Minus] }
    else { seq![Operator::Star, Operator::Slash, Operator::Percent] }
}

/// The precedence level of a binary operator, loosest (`||`) first.
pub open spec fn prec(op: Operator) -> Option<nat> {
    match op {
        Operator::LogicalOr => Some(0),
        Operator::LogicalAnd => Some(1),
        Operator::Pipe => Some(2),
        Operator::Caret => Some(3),
        Operator::Ampersand => Some(4),
        Operator::DoubleEquals | Operator::Different => Some(5),
        Operator::LesserThan | Operator::LesserEqual | Operator::GreaterThan | Operator::GreaterEqual => Some(6),
        Operator::LeftShift | Operator::RightShift => Some(7),
        Operator::Plus | Operator::Minus => Some(8),
        Operator::Star | Operator::Slash | Operator::Percent => Some(9),
        _ => None,
    }
}

/// Every binary operator of `e` outside parentheses is of level `level` or
/// tighter, and the right operand of each holds, outside parentheses, only
/// operators that bind tighter than it: operators of one level group to the
/// left, `a - b - c` being `(a - b) - c`.
pub open spec fn binds_left(e: Expression, level: nat) -> bool
    decreases e,
{
    proof { assert(decreases_to!(e => e.kind)); }
    match e.kind {
        ExpressionKind::Binary { left, operator, right } => match prec(operator) {
            Some(l) => l >= level && binds_left(*left, level) && binds_left(*right, l + 1),
            None => false,
        },
        _ => true,
    }
}

/// An expression that groups to the left at some level does so at every
/// looser level.
pub proof fn lemma_binds_left_looser(e: Expression, a: nat, b: nat)
    requires
        binds_left(e, a),
        b <= a,
    ensures
        binds_left(e, b),
    decreases e,
{
    if let ExpressionKind::Binary { left, .. } = e.kind {
        lemma_binds_left_looser(*left, a, b);
    }
}

/// The operators the parser takes at a level are of that precedence.
proof fn lemma_level_prec(op: Operator, level: nat)
    requires
        level < 10,
        level_ops(level).contains(op),
    ensures
        prec(op) == Some(level),
{
    let s = level_ops(level);
    let i = choose|i: int| 0 <= i < s.len() && s[i] == op;
    assert(s[i] == op);
}

/// A token that ends an expression: `;`, `,`, `)`, `]`, `}`.
pub open spec fn closer(k: TokenKind) -> bool {
    k == TokenKind::Operator(Operator::Semicolon) || k == TokenKind::Operator(Operator::Comma)
        || k == TokenKind::Operator(Operator::RightParen) || k == TokenKind::Operator(Operator::RightBracket)
        || k == TokenKind::Operator(Operator::RightBrace)
}

/// The expression ends before position `p`: the tokens run out there, or a
/// closing token stands there.
pub open spec fn ends_expr(tokens: Seq<Token>, p: int) -> bool {
    p >= tokens.len() || (0 <= p && closer(tokens[p].kind))
}

/// The expression a single literal or name token at `pos` stands for, when
/// the token after it ends the expression (or is a `{` opening a body, where
/// struct literals are not allowed).
pub open spec fn lone_operand(tokens: Seq<Token>, pos: int, ns: bool) -> Option<ExpressionKind> {
    if 0 <= pos < tokens.len() && (ends_expr(tokens, pos + 1) || (ns && op_at(tokens, pos + 1, Operator::LeftBrace))) {
        match tokens[pos].kind {
            TokenKind::Literal(l) => Some(ExpressionKind::Literal(l)),
            TokenKind::Identifier(id) => Some(ExpressionKind::Identifier(id)),
            _ => None,
        }
    } else {
        None
    }
}

proof fn lemma_closer_not_binary(op: Operator, level: nat)
    requires
        closer(TokenKind::Operator(op)) || op == Operator::LeftBrace,
    ensures
        !level_ops(level).contains(op),
{
    let s = level_ops(level);
    assert forall|i: int| 0 <= i < s.len() implies s[i] != op by {}
}

/// The token at `p` is the keyword `kw`.
pub open spec fn kw_at(tokens: Seq<Token>, p: int, kw: Keyword) -> bool {
    0 <= p < tokens.len() && tokens[p].kind == TokenKind::Keyword(kw)
}

/// The name the token at `p` holds, if it is an identifier.
pub open spec fn ident_tok(tokens: Seq<Token>, p: int) -> Option<Identifier> {
    if 0 <= p < tokens.len() {
        match tokens[p].kind {
            TokenKind::Identifier(id) => Some(id),
            _ => None,
        }
    } else {
        None
    }
}

/// The type a single builtin, `type` or plain name token at `p` stands for.
pub open spec fn simple_type(tokens: Seq<Token>, p: int) -> Option<TypeExpressionKind> {
    if 0 <= p < tokens.len() {
        match tokens[p].kind {
            TokenKind::BuiltinType(b) => Some(TypeExpressionKind::Builtin(b)),
            TokenKind::Keyword(Keyword::Type) => Some(TypeExpressionKind::TypeKeyword),
            TokenKind::Identifier(id) => if op_at(tokens, p + 1, Operator::DoubleColon) {
                None
            } else {
                Some(TypeExpressionKind::Identifier(id))
            },
            _ => None,
        }
    } else {
        None
    }
}

/// Number of binary precedence levels.
pub const BINARY_LEVELS: usize = 10;

fn binary_op_at_level(op: Operator, level: usize) -> (r: bool)
    requires
        level < BINARY_LEVELS,
    ensures
        r == level_ops(level as nat).contains(op),
{
    let r = if level == 0 { op == Operator::LogicalOr }
        else if level == 1 { op == Operator::LogicalAnd }
        else if level == 2 { op == Operator::Pipe }
        else if level == 3 { op == Operator::Caret }
        else if level == 4 { op == Operator::Ampersand }
        else if level == 5 { op == Operator::DoubleEquals || op == Operator::Different }
        else if level == 6 {
            op == Operator::LesserThan || op == Operator::LesserEqual || op == Operator::GreaterThan
                || op == Operator::GreaterEqual
        }
        else if level == 7 { op == Operator::LeftShift || op == Operator::RightShift }
        else if level == 8 { op == Operator::Plus || op == Operator::Minus }
        else { op == Operator::Star || op == Operator::Slash || op == Operator::Percent };
    proof {
        let s = level_ops(level as nat);
        if r {
            if level == 5 { if op == Operator::DoubleEquals { assert(s[0] == op); } else { assert(s[1] == op); } }
            else if level == 6 {
                if op == Operator::LesserThan { assert(s[0] == op); }
                else if op == Operator::LesserEqual { assert(s[1] == op); }
                else if op == Operator::GreaterThan { assert(s[2] == op); }
                else { assert(s[3] == op); }
            }
            else if level == 7 { if op == Operator::LeftShift { assert(s[0] == op); } else { assert(s[1] == op); } }
            else if level == 8 { if op == Operator::Plus { assert(s[0] == op); } else { assert(s[1] == op); } }
            else if level == 9 {
                if op == Operator::Star { assert(s[0] == op); }
                else if op == Operator::Slash { assert(s[1] == op); }
                else { assert(s[2] == op); }
            }
            else { assert(s[0] == op); }
        }
    }
    r
}

impl Parser {
    /// The tokens the parser works on (comments removed).
    pub closed spec fn tokens(&self) -> Seq<Token> {
        self.tokens@
    }

    /// The token count leaves room for position arithmetic.
    pub closed spec fn wf(&self) -> bool {
        self.tokens@.len() <= isize::MAX
    }

    pub closed spec fn filename(&self) -> Seq<char> {
        self.filename@
    }

    pub closed spec fn source(&self) -> Seq<char> {
        self.source@
    }

    pub fn new(tokens: Vec<Token>, filename: &str, source: String) -> (p: Parser)
        requires
            tokens@.len() <= isize::MAX,
        ensures
            p.wf(),
            p.tokens() == without_comments(tokens@),
            p.filename() == filename@,
            p.source() == source@,
    {
        let mut kept: Vec<Token> = Vec::new();
        let n = tokens.len();
        let mut i: usize = 0;
        while i < n
            invariant
                n == tokens.len(),
                0 <= i <= n,
                kept@ == without_comments(tokens@.subrange(0, i as int)),
            decreases n - i,
        {
            proof { assert(tokens@.subrange(0, i + 1).drop_last() =~= tokens@.subrange(0, i as int)); }
            match &tokens[i].kind {
                TokenKind::Comment => {},
                _ => {
                    kept.push(tokens[i].clone());
                },
            }
            i = i + 1;
        }
        proof {
            assert(tokens@.subrange(0, n as int) =~= tokens@);
            lemma_without_comments_len(tokens@);
        }
        Parser { tokens: kept, filename: str_to_string(filename), source }
    }

    /// An error at token `pos`, or after the last token when `pos` is past the
    /// end (or at 0:0 when there are no tokens).
    fn error_at(&self, pos: usize, message: &str) -> (e: ParseError)
        requires
            self.wf(),
            pos <= self.tokens().len() + 2,
        ensures
            e.filename@ == self.filename(),
            e.message@ == message@,
            pos < self.tokens().len() ==> e.line == self.tokens()[pos as int].line
                && e.column == self.tokens()[pos as int].column
                && e.source_line@ == line_text(self.source(), self.tokens()[pos as int].line),
    {
        let (line, column) = if pos < self.tokens.len() {
            (self.tokens[pos].line, self.tokens[pos].column)
        } else if self.tokens.len() > 0 {
            let last = self.tokens.len() - 1;
            (self.tokens[last].line, self.tokens[last].column)
        } else {
            (0, 0)
        };
        let source_line = match crate::diagnostics::source_line_at(self.source.as_str(), line) {
            Some(l) => l,
            None => crate::text::empty_string(),
        };
        ParseError {
            filename: self.filename.clone(),
            message: str_to_string(message),
            line,
            column,
            source_line,
        }
    }

    fn span_at(&self, pos: usize) -> (s: Span)
        requires
            self.wf(),
            pos <= self.tokens().len() + 2,
            pos < self.tokens().len(),
        ensures
            s.line == self.tokens()[pos as int].line,
            s.column == self.tokens()[pos as int].column,
    {
        Span::new(self.tokens[pos].line, self.tokens[pos].column)
    }

    fn is_op(&self, pos: usize, op: Operator) -> (r: bool)
        requires
            self.wf(),
            pos <= self.tokens().len() + 2,
        ensures
            r == (pos < self.tokens().len() && self.tokens()[pos as int].kind == TokenKind::Operator(op)),
    {
        if pos < self.tokens.len() {
            match &self.tokens[pos].kind {
                TokenKind::Operator(o) => *o == op,
                _ => false,
            }
        } else {
            false
        }
    }

    fn is_kw(&self, pos: usize, kw: Keyword) -> (r: bool)
        requires
            self.wf(),
            pos <= self.tokens().len() + 2,
        ensures
            r == (pos < self.tokens().len() && self.tokens()[pos as int].kind == TokenKind::Keyword(kw)),
    {
        if pos < self.tokens.len() {
            match &self.tokens[pos].kind {
                TokenKind::Keyword(k) => *k == kw,
                _ => false,
            }
        } else {
            false
        }
    }

    fn ident_at(&self, pos: usize) -> (r: Option<Identifier>)
        requires
            self.wf(),
            pos <= self.tokens().len() + 2,
        ensures
            match r {
                Some(id) => pos < self.tokens().len() && self.tokens()[pos as int].kind == TokenKind::Identifier(id),
                None => !(pos < self.tokens().len() && self.tokens()[pos as int].kind is Identifier),
            },
    {
        if pos < self.tokens.len() {
            match &self.tokens[pos].kind {
                TokenKind::Identifier(id) => Some(id.clone()),
                _ => None,
            }
        } else {
            None
        }
    }

    fn expect_op(&self, pos: usize, op: Operator, msg: &str) -> (r: ParseResult<usize>)
        requires
            self.wf(),
            pos <= self.tokens().len() + 2,
        ensures
            r matches Ok(p) ==> p == pos + 1 && pos < self.tokens().len(),
            r is Ok <==> (pos < self.tokens().len() && self.tokens()[pos as int].kind == TokenKind::Operator(op)),
    {
        if self.is_op(pos, op) {
            Ok(pos + 1)
        } else {
            Err(self.error_at(pos, msg))
        }
    }

    fn expect_identifier(&self, pos: usize, msg: &str) -> (r: ParseResult<(Identifier, usize)>)
        requires
            self.wf(),
            pos <= self.tokens().len() + 2,
        ensures
            match r {
                Ok((id, p)) => p == pos + 1 && pos < self.tokens().len()
                    && self.tokens()[pos as int].kind == TokenKind::Identifier(id),
                Err(_) => !(pos < self.tokens().len() && self.tokens()[pos as int].kind is Identifier),
            },
    {
        match self.ident_at(pos) {
            Some(id) => Ok((id, pos + 1)),
            None => Err(self.error_at(pos, msg)),
        }
    }

    /// Parse the whole token stream into declarations.
    pub fn parse(&mut self) -> (r: ParseResult<Ast>)
        requires
            old(self).wf(),
        ensures
            final(self).tokens() == old(self).tokens(),
            old(self).tokens().len() == 0 ==> (r matches Ok(a) && a.declarations.len() == 0),
            r matches Ok(a) ==> a.declarations.len() <= old(self).tokens().len(),
            r matches Ok(a) ==> declarations_introduced(old(self).tokens(), a.declarations@),
            old(self).tokens().len() > 0 && !starts_declaration(old(self).tokens()[0].kind) ==> r is Err,
            simple_reach(old(self).tokens(), 0, old(self).tokens().len() as int) ==> r is Ok,
            r matches Ok(a) ==> forall|i: int| 0 <= i < a.declarations.len()
                ==> (#[trigger] a.declarations@[i] matches DeclarationNode::ImportDeclaration(imp) ==> imp.path.len() > 0),
            forall|q: int| simple_reach(old(self).tokens(), 0, q) && 0 <= q < old(self).tokens().len()
                && !starts_declaration(#[trigger] old(self).tokens()[q].kind) && !(old(self).tokens()[q].kind is Error)
                ==> (r matches Err(e) && e.message@ == "expected 'import', 'fn', 'extern' or 'type'"@
                    && e.line == old(self).tokens()[q].line && e.column == old(self).tokens()[q].column
                    && e.source_line@ == line_text(old(self).source(), old(self).tokens()[q].line)),
    {
        let mut declarations: Vec<DeclarationNode> = Vec::new();
        let mut pos: usize = 0;
        let n = self.tokens.len();
        let ghost mut starts: Seq<int> = Seq::empty();
        while pos < n
            invariant
                n == self.tokens().len(),
                0 <= pos <= n,
                declarations.len() <= pos,
                pos == 0 ==> declarations.len() == 0,
                pos > 0 ==> starts_declaration(self.tokens()[0].kind),
                starts_introduce(self.tokens(), declarations@, starts),
                forall|k: int| 0 <= k < starts.len() ==> #[trigger] starts[k] < pos,
                self.tokens() == old(self).tokens(),
                self.source() == old(self).source(),
                forall|q: int| #[trigger] simple_reach(self.tokens(), 0, q) && q >= pos ==> simple_reach(self.tokens(), pos as int, q),
                forall|q: int| #[trigger] simple_reach(self.tokens(), 0, q) && 0 <= q < pos ==> starts_declaration(self.tokens()[q].kind),
                forall|i: int| 0 <= i < declarations.len()
                    ==> (#[trigger] declarations@[i] matches DeclarationNode::ImportDeclaration(imp) ==> imp.path.len() > 0),
            decreases n - pos,
        {
            proof {
                if simple_decl_end(self.tokens(), pos as int) is Some {
                    assert forall|q: int| #[trigger] simple_reach(self.tokens(), 0, q) && q > pos implies simple_reach(
                        self.tokens(),
                        simple_decl_end(self.tokens(), pos as int)->0,
                        q,
                    ) by {
                        assert(simple_reach(self.tokens(), pos as int, q));
                    }
                }
                assert forall|q: int| #[trigger] simple_reach(self.tokens(), 0, q) && q >= pos && (simple_decl_end(self.tokens(),
                    pos as int) is None || q < simple_decl_end(self.tokens(), pos as int)->0) implies q == pos by {
                    assert(simple_reach(self.tokens(), pos as int, q));
                }
            }
            if self.is_kw(pos, Keyword::Import) {
                let (import, p) = self.parse_import_declaration(pos)?;
                declarations.push(DeclarationNode::ImportDeclaration(import));
                proof {
                    starts = starts.push(pos as int);
                }
                pos = p;
            } else if self.is_kw(pos, Keyword::Function) || self.is_kw(pos, Keyword::Extern) {
                let (func, p) = self.parse_function_declaration(pos)?;
                declarations.push(DeclarationNode::FunctionDeclaration(func));
                proof {
                    starts = starts.push(pos as int);
                }
                pos = p;
            } else if self.is_kw(pos, Keyword::Type) {
                let (ty, p) = self.parse_type_declaration(pos)?;
                declarations.push(DeclarationNode::TypeDeclaration(ty));
                proof {
                    starts = starts.push(pos as int);
                }
                pos = p;
            } else if self.is_op(pos, Operator::Semicolon) {
                pos = pos + 1;
            } else {
                return Err(self.token_error(pos, "expected 'import', 'fn', 'extern' or 'type'"));
            }
        }
        proof {
            assert(starts.len() == declarations@.len());
        }
        Ok(Ast { declarations })
    }

    /// A lexical error token reports its own message; anything else reports `msg`.
    fn token_error(&self, pos: usize, msg: &str) -> (e: ParseError)
        requires
            self.wf(),
            pos <= self.tokens().len() + 2,
        ensures
            e.filename@ == self.filename(),
            pos < self.tokens().len() && !(self.tokens()[pos as int].kind is Error) ==> e.message@ == msg@
                && e.line == self.tokens()[pos as int].line && e.column == self.tokens()[pos as int].column
                && e.source_line@ == line_text(self.source(), self.tokens()[pos as int].line),
    {
        if pos < self.tokens.len() {
            match &self.tokens[pos].kind {
                TokenKind::Error(m) => {
                    return self.error_at(pos, m.as_str());
                },
                _ => {},
            }
        }
        self.error_at(pos, msg)
    }

    /// Skip one optional `;`.
    fn skip_semicolon(&self, pos: usize) -> (p: usize)
        requires
            self.wf(),
            pos <= self.tokens().len() + 2,
        ensures
            p == (if op_at(self.tokens(), pos as int, Operator::Semicolon) { pos + 1 } else { pos as int }),
    {
        if self.is_op(pos, Operator::Semicolon) { pos + 1 } else { pos }
    }

    // ------------------------------------------------------------------
    // Declarations
    // ------------------------------------------------------------------

    /// `import a::b`, `import a::b as c`, `import a::b::{X, Y}`.
    fn parse_import_declaration(&self, pos: usize) -> (r: ParseResult<(ImportDeclaration, usize)>)
        requires
            self.wf(),
            pos <= self.tokens().len() + 2,
            pos < self.tokens().len(),
        ensures
            r matches Ok((_, p)) ==> pos < p <= self.tokens().len(),
            r matches Ok((imp, _)) ==> imp.path.len() > 0,
            ident_tok(self.tokens(), pos + 1) matches Some(id) ==> (!op_at(self.tokens(), pos + 2, Operator::DoubleColon)
                && !kw_at(self.tokens(), pos + 2, Keyword::As) ==> (r matches Ok((imp, p)) && imp.path@ == seq![id]
                && imp.alias is None && imp.selective is None
                && p == (if op_at(self.tokens(), pos + 2, Operator::Semicolon) { pos + 3 } else { pos + 2 }))),
    {
        let mut path: Vec<Identifier> = Vec::new();
        let (first, mut p) = self.expect_identifier(pos + 1, "expected a module name after 'import'")?;
        let ghost f0 = first;
        path.push(first);
        proof {
            assert(path@ =~= seq![f0]);
        }
        let mut selective: Option<Vec<Identifier>> = None;
        while self.is_op(p, Operator::DoubleColon)
            invariant
                pos < p <= self.tokens().len(),
                path.len() > 0,
                !op_at(self.tokens(), pos + 2, Operator::DoubleColon) ==> p == pos + 2 && path@ == seq![f0] && selective is None,
            decreases self.tokens().len() - p,
        {
            if self.is_op(p + 1, Operator::LeftBrace) {
                let mut names: Vec<Identifier> = Vec::new();
                let mut q = p + 2;
                while !self.is_op(q, Operator::RightBrace)
                    invariant
                        pos < q <= self.tokens().len() + 1,
                    decreases self.tokens().len() + 1 - q,
                {
                    let (name, q2) = self.expect_identifier(q, "expected a name in the import list")?;
                    names.push(name);
                    q = q2;
                    if self.is_op(q, Operator::Comma) {
                        q = q + 1;
                    } else if !self.is_op(q, Operator::RightBrace) {
                        return Err(self.error_at(q, "expected ',' or '}' in the import list"));
                    }
                }
                selective = Some(names);
                p = q + 1;
                break;
            }
            let (seg, p2) = self.expect_identifier(p + 1, "expected a module name after '::'")?;
            path.push(seg);
            p = p2;
        }
        let mut alias: Option<Identifier> = None;
        if selective.is_none() && self.is_kw(p, Keyword::As) {
            let (a, p2) = self.expect_identifier(p + 1, "expected an alias after 'as'")?;
            alias = Some(a);
            p = p2;
        }
        let p = self.skip_semicolon(p);
        Ok((ImportDeclaration { path, alias, selective }, p))
    }

    /// `type Name <type>`.
    fn parse_type_declaration(&self, pos: usize) -> (r: ParseResult<(TypeDeclaration, usize)>)
        requires
            self.wf(),
            pos <= self.tokens().len() + 2,
            pos < self.tokens().len(),
        ensures
            r matches Ok((_, p)) ==> pos < p <= self.tokens().len(),
            ident_tok(self.tokens(), pos + 1) matches Some(id) ==> (simple_type(self.tokens(), pos + 2) matches Some(k)
                ==> (!op_at(self.tokens(), pos + 3, Operator::LeftBracket) ==> (r matches Ok((d, p)) && d.name == id
                && d.expression.kind == k && p == (if op_at(self.tokens(), pos + 3, Operator::Semicolon) { pos + 4 } else { pos + 3 })))),
    {
        let (name, p) = self.expect_identifier(pos + 1, "expected a type name after 'type'")?;
        let (expression, p) = self.parse_type(p)?;
        let p = self.skip_semicolon(p);
        Ok((TypeDeclaration { name, expression }, p))
    }

    /// `[extern] fn name(params) [ret] (block | ;)`.
    fn parse_function_declaration(&self, pos: usize) -> (r: ParseResult<(FunctionDeclaration, usize)>)
        requires
            self.wf(),
            pos <= self.tokens().len() + 2,
            pos < self.tokens().len(),
        ensures
            r matches Ok((_, p)) ==> pos < p <= self.tokens().len(),
            r matches Ok((f, _)) ==> f.is_extern == (self.tokens()[pos as int].kind == TokenKind::Keyword(Keyword::Extern))
                && (f.is_extern ==> f.body is None),
            ident_tok(self.tokens(), pos + 1) matches Some(name) ==> (kw_at(self.tokens(), pos as int, Keyword::Function)
                && op_at(self.tokens(), pos + 2, Operator::LeftParen) && op_at(self.tokens(), pos + 3, Operator::RightParen)
                && op_at(self.tokens(), pos + 4, Operator::Semicolon) ==> (r matches Ok((f, p)) && p == pos + 5
                && f.signature.name == name && f.signature.parameters.len() == 0 && f.signature.return_type is None
                && f.body is None && !f.is_extern && !f.is_variadic)),
            ident_tok(self.tokens(), pos + 1) matches Some(name) ==> (kw_at(self.tokens(), pos as int, Keyword::Function)
                && op_at(self.tokens(), pos + 2, Operator::LeftParen) && op_at(self.tokens(), pos + 3, Operator::RightParen)
                && op_at(self.tokens(), pos + 4, Operator::LeftBrace) && op_at(self.tokens(), pos + 5, Operator::RightBrace)
                ==> (r matches Ok((f, p)) && p == pos + 6 && f.signature.name == name && f.signature.parameters.len() == 0
                && f.signature.return_type is None && (f.body matches Some(b) && b.statements.len() == 0) && !f.is_extern
                && !f.is_variadic)),
    {
        let is_extern = self.is_kw(pos, Keyword::Extern);
        let mut p = pos;
        if is_extern {
            p = p + 1;
            if !self.is_kw(p, Keyword::Function) {
                return Err(self.error_at(p, "expected 'fn' after 'extern'"));
            }
        }
        let (name, p1) = self.expect_identifier(p + 1, "expected a function name")?;
        let mut p = self.expect_op(p1, Operator::LeftParen, "expected '(' after the function name")?;
        let mut parameters: Vec<FunctionParameter> = Vec::new();
        let mut is_variadic = false;
        while !self.is_op(p, Operator::RightParen)
            invariant
                pos < p <= self.tokens().len() + 1,
                ident_tok(self.tokens(), pos + 1) is Some && kw_at(self.tokens(), pos as int, Keyword::Function)
                    && op_at(self.tokens(), pos + 2, Operator::LeftParen) && op_at(self.tokens(), pos + 3, Operator::RightParen)
                    ==> p == pos + 3 && parameters.len() == 0 && !is_variadic,
            decreases self.tokens().len() + 1 - p,
        {
            if self.is_op(p, Operator::Ellipsis) {
                is_variadic = true;
                p = p + 1;
                if !self.is_op(p, Operator::RightParen) {
                    return Err(self.error_at(p, "'...' must be the last parameter"));
                }
                break;
            }
            let (parameter_name, p2) = self.expect_identifier(p, "expected a parameter name")?;
            let p3 = self.expect_op(p2, Operator::Colon, "expected ':' after the parameter name")?;
            let (parameter_type, p4) = self.parse_type(p3)?;
            parameters.push(FunctionParameter { parameter_name, parameter_type });
            p = p4;
            if self.is_op(p, Operator::Comma) {
                p = p + 1;
            } else if !self.is_op(p, Operator::RightParen) {
                return Err(self.error_at(p, "expected ',' or ')' in the parameter list"));
            }
        }
        let mut p = p + 1;
        let mut return_type: Option<TypeExpression> = None;
        if p < self.tokens.len() && !self.is_op(p, Operator::LeftBrace) && !self.is_op(p, Operator::Semicolon)
            && self.starts_type(p)
        {
            let (t, p2) = self.parse_type(p)?;
            return_type = Some(t);
            p = p2;
        }
        let signature = FunctionSignature { name, parameters, return_type };
        if self.is_op(p, Operator::LeftBrace) && !is_extern {
            let (statements, p2) = self.parse_block(p)?;
            return Ok((
                FunctionDeclaration { signature, body: Some(FunctionBody { statements }), is_extern, is_variadic },
                p2,
            ));
        }
        if !is_extern && !self.is_op(p, Operator::Semicolon) {
            return Err(self.error_at(p, "expected '{' or ';' after the function signature"));
        }
        let p = self.skip_semicolon(p);
        Ok((FunctionDeclaration { signature, body: None, is_extern, is_variadic }, p))
    }

    // ------------------------------------------------------------------
    // Types
    // ------------------------------------------------------------------

    /// Whether the token at `pos` can start a type expression.
    fn starts_type(&self, pos: usize) -> (r: bool)
        requires
            self.wf(),
            pos <= self.tokens().len() + 2,
        ensures
            r == (pos < self.tokens().len() && type_start(self.tokens()[pos as int].kind)),
    {
        if pos >= self.tokens.len() {
            return false;
        }
        match &self.tokens[pos].kind {
            TokenKind::BuiltinType(_) => true,
            TokenKind::Identifier(_) => true,
            TokenKind::Operator(Operator::Star) => true,
            TokenKind::Operator(Operator::LeftParen) => true,
            TokenKind::Keyword(Keyword::Struct) => true,
            TokenKind::Keyword(Keyword::Enum) => true,
            TokenKind::Keyword(Keyword::Function) => true,
            TokenKind::Keyword(Keyword::Type) => true,
            _ => false,
        }
    }

    /// A type expression with its `[N]` / `[]` suffixes.
    fn parse_type(&self, pos: usize) -> (r: ParseResult<(TypeExpression, usize)>)
        requires
            self.wf(),
            pos <= self.tokens().len() + 2,
        ensures
            r matches Ok((_, p)) ==> pos < p <= self.tokens().len(),
            simple_type(self.tokens(), pos as int) matches Some(k) ==> (!op_at(self.tokens(), pos + 1, Operator::LeftBracket)
                ==> (r matches Ok((t, p)) && p == pos + 1 && t.kind == k)),
        decreases self.tokens().len() - pos, 3nat,
    {
        let (base, mut p) = self.parse_type_primary(pos)?;
        let span = base.span;
        let mut t = base;
        while self.is_op(p, Operator::LeftBracket)
            invariant
                pos < p <= self.tokens().len(),
                simple_type(self.tokens(), pos as int) matches Some(k) ==> (!op_at(self.tokens(), pos + 1, Operator::LeftBracket)
                    ==> p == pos + 1 && t.kind == k),
            decreases self.tokens().len() - p,
        {
            if self.is_op(p + 1, Operator::RightBracket) {
                t = TypeExpression::at(TypeExpressionKind::Slice { element_type: Box::new(t) }, span);
                p = p + 2;
            } else {
                let size = if p + 1 < self.tokens.len() {
                    match &self.tokens[p + 1].kind {
                        TokenKind::Literal(Literal::Integer(v)) => Some(*v),
                        _ => None,
                    }
                } else {
                    None
                };
                match size {
                    Some(size) => {
                        let p2 = self.expect_op(p + 2, Operator::RightBracket, "expected ']' after the array size")?;
                        t = TypeExpression::at(TypeExpressionKind::Array { element_type: Box::new(t), size }, span);
                        p = p2;
                    },
                    None => {
                        return Err(self.error_at(p + 1, "expected an array size"));
                    },
                }
            }
        }
        Ok((t, p))
    }

    fn parse_type_primary(&self, pos: usize) -> (r: ParseResult<(TypeExpression, usize)>)
        requires
            self.wf(),
            pos <= self.tokens().len() + 2,
        ensures
            r matches Ok((_, p)) ==> pos < p <= self.tokens().len(),
            simple_type(self.tokens(), pos as int) matches Some(k) ==> (r matches Ok((t, p)) && p == pos + 1 && t.kind == k),
        decreases self.tokens().len() - pos, 2nat,
    {
        if pos >= self.tokens.len() {
            return Err(self.error_at(pos, "expected a type"));
        }
        let span = self.span_at(pos);
        match &self.tokens[pos].kind {
            TokenKind::BuiltinType(b) => Ok((TypeExpression::at(TypeExpressionKind::Builtin(*b), span), pos + 1)),
            TokenKind::Identifier(id) => {
                if self.is_op(pos + 1, Operator::DoubleColon) {
                    let (name, p) = self.expect_identifier(pos + 2, "expected a type name after '::'")?;
                    Ok((
                        TypeExpression::at(TypeExpressionKind::QualifiedIdentifier { module: id.clone(), name }, span),
                        p,
                    ))
                } else {
                    Ok((TypeExpression::at(TypeExpressionKind::Identifier(id.clone()), span), pos + 1))
                }
            },
            TokenKind::Operator(Operator::Star) => {
                let (inner, p) = self.parse_type(pos + 1)?;
                Ok((TypeExpression::at(TypeExpressionKind::Pointer { pointed_type: Box::new(inner) }, span), p))
            },
            TokenKind::Keyword(Keyword::Type) => Ok((TypeExpression::at(TypeExpressionKind::TypeKeyword, span), pos + 1)),
            TokenKind::Operator(Operator::LeftParen) => {
                let (elements, p) = self.parse_type_list(pos + 1, Operator::RightParen)?;
                if elements.len() == 1 {
                    let mut elements = elements;
                    let only = elements.pop().unwrap();
                    Ok((only, p))
                } else {
                    Ok((TypeExpression::at(TypeExpressionKind::Tuple { elements }, span), p))
                }
            },
            TokenKind::Keyword(Keyword::Function) => {
                let p = self.expect_op(pos + 1, Operator::LeftParen, "expected '(' after 'fn' in a type")?;
                let (argument_types, p) = self.parse_type_list(p, Operator::RightParen)?;
                let (ret, p) = self.parse_type(p)?;
                Ok((
                    TypeExpression::at(TypeExpressionKind::Function { argument_types, return_type: Box::new(ret) }, span),
                    p,
                ))
            },
            TokenKind::Keyword(Keyword::Struct) => {
                let p = self.expect_op(pos + 1, Operator::LeftBrace, "expected '{' after 'struct'")?;
                let (fields, p) = self.parse_fields(p)?;
                Ok((TypeExpression::at(TypeExpressionKind::Struct { fields }, span), p))
            },
            TokenKind::Keyword(Keyword::Enum) => {
                let p = self.expect_op(pos + 1, Operator::LeftBrace, "expected '{' after 'enum'")?;
                let (variants, p) = self.parse_variants(p)?;
                Ok((TypeExpression::at(TypeExpressionKind::Enum { variants }, span), p))
            },
            _ => Err(self.token_error(pos, "expected a type")),
        }
    }

    /// `T, U, ... <close>` (the opening token already consumed).
    fn parse_type_list(&self, pos: usize, close: Operator) -> (r: ParseResult<(Vec<TypeExpression>, usize)>)
        requires
            self.wf(),
            pos <= self.tokens().len() + 2,
            pos >= 1,
            pos <= self.tokens().len() + 1,
        ensures
            r matches Ok((_, p)) ==> pos < p <= self.tokens().len(),
            op_at(self.tokens(), pos as int, close) ==> (r matches Ok((v, p)) && p == pos + 1 && v.len() == 0),
        decreases self.tokens().len() + 1 - pos, 0nat,
    {
        let mut out: Vec<TypeExpression> = Vec::new();
        let mut p = pos;
        while !self.is_op(p, close)
            invariant
                pos <= p <= self.tokens().len() + 1,
                op_at(self.tokens(), pos as int, close) ==> p == pos && out.len() == 0,
            decreases self.tokens().len() + 1 - p,
        {
            if p >= self.tokens.len() {
                return Err(self.error_at(p, "unterminated type list"));
            }
            let (t, p2) = self.parse_type(p)?;
            out.push(t);
            p = p2;
            if self.is_op(p, Operator::Comma) {
                p = p + 1;
            } else if !self.is_op(p, close) {
                return Err(self.error_at(p, "expected ',' in the type list"));
            }
        }
        Ok((out, p + 1))
    }

    /// `name: T, ... }` (the `{` already consumed).
    fn parse_fields(&self, pos: usize) -> (r: ParseResult<(Vec<Field>, usize)>)
        requires
            self.wf(),
            pos <= self.tokens().len() + 2,
            pos >= 1,
            pos <= self.tokens().len() + 1,
        ensures
            r matches Ok((_, p)) ==> pos < p <= self.tokens().len(),
            op_at(self.tokens(), pos as int, Operator::RightBrace) ==> (r matches Ok((v, p)) && p == pos + 1 && v.len() == 0),
        decreases self.tokens().len() + 1 - pos, 0nat,
    {
        let mut out: Vec<Field> = Vec::new();
        let mut p = pos;
        while !self.is_op(p, Operator::RightBrace)
            invariant
                pos <= p <= self.tokens().len() + 1,
                op_at(self.tokens(), pos as int, Operator::RightBrace) ==> p == pos && out.len() == 0,
            decreases self.tokens().len() + 1 - p,
        {
            let (label, p2) = self.expect_identifier(p, "expected a field name")?;
            let p3 = self.expect_op(p2, Operator::Colon, "expected ':' after the field name")?;
            let (type_id, p4) = self.parse_type(p3)?;
            out.push(Field { label, type_id });
            p = p4;
            if self.is_op(p, Operator::Comma) {
                p = p + 1;
            } else if !self.is_op(p, Operator::RightBrace) {
                return Err(self.error_at(p, "expected ',' or '}' after a field"));
            }
        }
        Ok((out, p + 1))
    }

    /// `A, B { x: T }, ... }` (the `{` already consumed).
    fn parse_variants(&self, pos: usize) -> (r: ParseResult<(Vec<EnumVariant>, usize)>)
        requires
            self.wf(),
            pos <= self.tokens().len() + 2,
            pos >= 1,
            pos <= self.tokens().len() + 1,
        ensures
            r matches Ok((_, p)) ==> pos < p <= self.tokens().len(),
            op_at(self.tokens(), pos as int, Operator::RightBrace) ==> (r matches Ok((v, p)) && p == pos + 1 && v.len() == 0),
        decreases self.tokens().len() + 1 - pos, 0nat,
    {
        let mut out: Vec<EnumVariant> = Vec::new();
        let mut p = pos;
        while !self.is_op(p, Operator::RightBrace)
            invariant
                pos <= p <= self.tokens().len() + 1,
                op_at(self.tokens(), pos as int, Operator::RightBrace) ==> p == pos && out.len() == 0,
            decreases self.tokens().len() + 1 - p,
        {
            let (name, p2) = self.expect_identifier(p, "expected a variant name")?;
            p = p2;
            let mut payload: Option<Vec<Field>> = None;
            if self.is_op(p, Operator::LeftBrace) {
                let (fields, p3) = self.parse_fields(p + 1)?;
                payload = Some(fields);
                p = p3;
            }
            out.push(EnumVariant { name, payload });
            if self.is_op(p, Operator::Comma) {
                p = p + 1;
            } else if !self.is_op(p, Operator::RightBrace) {
                return Err(self.error_at(p, "expected ',' or '}' after a variant"));
            }
        }
        Ok((out, p + 1))
    }

    // ------------------------------------------------------------------
    // Statements
    // ------------------------------------------------------------------

    /// `{ statements }`.
    fn parse_block(&self, pos: usize) -> (r: ParseResult<(Vec<Statement>, usize)>)
        requires
            self.wf(),
            pos <= self.tokens().len() + 2,
        ensures
            r matches Ok((_, p)) ==> pos < p <= self.tokens().len(),
            op_at(self.tokens(), pos as int, Operator::LeftBrace) && op_at(self.tokens(), pos + 1, Operator::RightBrace)
                ==> (r matches Ok((v, p)) && p == pos + 2 && v.len() == 0),
        decreases self.tokens().len() - pos, 4nat,
    {
        let mut p = self.expect_op(pos, Operator::LeftBrace, "expected '{'")?;
        let mut statements: Vec<Statement> = Vec::new();
        while !self.is_op(p, Operator::RightBrace)
            invariant
                pos < p <= self.tokens().len(),
                op_at(self.tokens(), pos + 1, Operator::RightBrace) ==> p == pos + 1 && statements.len() == 0,
            decreases self.tokens().len() - p,
        {
            if p >= self.tokens.len() {
                return Err(self.error_at(p, "expected '}' at the end of the block"));
            }
            if self.is_op(p, Operator::Semicolon) {
                p = p + 1;
            } else {
                let (s, p2) = self.parse_statement(p)?;
                statements.push(s);
                p = p2;
            }
        }
        Ok((statements, p + 1))
    }

    /// One statement, with an optional trailing `;`.
    fn parse_statement(&self, pos: usize) -> (r: ParseResult<(Statement, usize)>)
        requires
            self.wf(),
            pos <= self.tokens().len() + 2,
            pos < self.tokens().len(),
        ensures
            r matches Ok((s, p)) ==> pos < p <= self.tokens().len()
                && s.span.line == self.tokens()[pos as int].line
                && s.span.column == self.tokens()[pos as int].column,
            kw_at(self.tokens(), pos as int, Keyword::Break) ==> (r matches Ok((s, p)) && s.kind == StatementKind::Break
                && p == (if op_at(self.tokens(), pos + 1, Operator::Semicolon) { pos + 2 } else { pos + 1 })),
        decreases self.tokens().len() - pos, 3nat,
    {
        let span = self.span_at(pos);
        let (kind, p) = self.parse_statement_kind(pos)?;
        let p = self.skip_semicolon(p);
        Ok((Statement { kind, span }, p))
    }

    fn parse_statement_kind(&self, pos: usize) -> (r: ParseResult<(StatementKind, usize)>)
        requires
            self.wf(),
            pos <= self.tokens().len() + 2,
            pos < self.tokens().len(),
        ensures
            r matches Ok((_, p)) ==> pos < p <= self.tokens().len(),
            kw_at(self.tokens(), pos as int, Keyword::Break) ==> (r matches Ok((k, p)) && p == pos + 1 && k == StatementKind::Break),
            kw_at(self.tokens(), pos as int, Keyword::Continue) ==> (r matches Ok((k, p)) && p == pos + 1
                && k == StatementKind::Continue),
            lone_operand(self.tokens(), pos as int, false) matches Some(ek) ==> (!op_at(self.tokens(), pos + 1, Operator::Comma)
                ==> (r matches Ok((k, p)) && p == pos + 1 && (k matches StatementKind::ExpressionStatement(e) && e.kind == ek))),
        decreases self.tokens().len() - pos, 2nat,
    {
        if self.is_kw(pos, Keyword::Var) {
            let (constant_type, p) = self.parse_type(pos + 1)?;
            let (identifier, p) = self.expect_identifier(p, "expected a variable name after its type")?;
            if self.is_op(p, Operator::Equals) {
                let (e, p2) = self.parse_expression(p + 1, false)?;
                return Ok((StatementKind::VariableDeclaration(VariableDeclaration::new(identifier, Some(constant_type), Some(e))), p2));
            }
            return Ok((StatementKind::VariableDeclaration(VariableDeclaration::new(identifier, Some(constant_type), None)), p));
        }
        if self.is_kw(pos, Keyword::Return) {
            let line = self.tokens[pos].line;
            let p = pos + 1;
            let has_value = p < self.tokens.len() && self.tokens[p].line == line
                && !self.is_op(p, Operator::RightBrace) && !self.is_op(p, Operator::Semicolon);
            if !has_value {
                return Ok((StatementKind::Return(None), p));
            }
            let (values, p2) = self.parse_expression_list(p)?;
            return Ok((StatementKind::Return(Some(values)), p2));
        }
        if self.is_kw(pos, Keyword::If) {
            return self.parse_if(pos);
        }
        if self.is_kw(pos, Keyword::For) {
            return self.parse_for(pos);
        }
        if self.is_kw(pos, Keyword::Break) {
            return Ok((StatementKind::Break, pos + 1));
        }
        if self.is_kw(pos, Keyword::Continue) {
            return Ok((StatementKind::Continue, pos + 1));
        }
        if self.is_kw(pos, Keyword::Defer) {
            if pos + 1 >= self.tokens.len() {
                return Err(self.error_at(pos + 1, "expected a statement after 'defer'"));
            }
            let (inner, p) = self.parse_statement(pos + 1)?;
            return Ok((StatementKind::Defer(Box::new(inner)), p));
        }
        if self.is_kw(pos, Keyword::Switch) {
            return self.parse_switch(pos);
        }
        self.parse_simple_statement(pos)
    }

    /// `e, e, ...` (at least one).
    fn parse_expression_list(&self, pos: usize) -> (r: ParseResult<(Vec<Expression>, usize)>)
        requires
            self.wf(),
            pos <= self.tokens().len() + 2,
        ensures
            r matches Ok((v, p)) ==> pos < p <= self.tokens().len() && v.len() >= 1,
            lone_operand(self.tokens(), pos as int, false) matches Some(k) ==> (!op_at(self.tokens(), pos + 1, Operator::Comma)
                ==> (r matches Ok((v, p)) && p == pos + 1 && v.len() == 1 && v@[0].kind == k)),
    {
        let (first, mut p) = self.parse_expression(pos, false)?;
        let mut out: Vec<Expression> = Vec::new();
        out.push(first);
        while self.is_op(p, Operator::Comma)
            invariant
                pos < p <= self.tokens().len(),
                out.len() >= 1,
                lone_operand(self.tokens(), pos as int, false) matches Some(k) ==> (!op_at(self.tokens(), pos + 1, Operator::Comma)
                    ==> p == pos + 1 && out.len() == 1 && out@[0].kind == k),
            decreases self.tokens().len() - p,
        {
            let (e, p2) = self.parse_expression(p + 1, false)?;
            out.push(e);
            p = p2;
        }
        Ok((out, p))
    }

    /// Declarations, assignments and expression statements.
    fn parse_simple_statement(&self, pos: usize) -> (r: ParseResult<(StatementKind, usize)>)
        requires
            self.wf(),
            pos <= self.tokens().len() + 2,
            pos < self.tokens().len(),
        ensures
            r matches Ok((_, p)) ==> pos < p <= self.tokens().len(),
            lone_operand(self.tokens(), pos as int, false) matches Some(ek) ==> (!op_at(self.tokens(), pos + 1, Operator::Comma)
                ==> (r matches Ok((k, p)) && p == pos + 1 && (k matches StatementKind::ExpressionStatement(e) && e.kind == ek))),
    {
        let (first, p) = self.parse_expression(pos, false)?;
        // `x: T [= e]`
        if self.is_op(p, Operator::Colon) {
            let identifier = match first.kind {
                ExpressionKind::Identifier(id) => id,
                _ => {
                    return Err(self.error_at(p, "only a name can be declared with ':'"));
                },
            };
            let (t, p2) = self.parse_type(p + 1)?;
            if self.is_op(p2, Operator::Equals) {
                let (e, p3) = self.parse_expression(p2 + 1, false)?;
                return Ok((StatementKind::VariableDeclaration(VariableDeclaration::new(identifier, Some(t), Some(e))), p3));
            }
            return Ok((StatementKind::VariableDeclaration(VariableDeclaration::new(identifier, Some(t), None)), p2));
        }
        // `x := e`
        if self.is_op(p, Operator::ColonEquals) {
            let identifier = match first.kind {
                ExpressionKind::Identifier(id) => id,
                _ => {
                    return Err(self.error_at(p, "only a name can be declared with ':='"));
                },
            };
            let (e, p2) = self.parse_expression(p + 1, false)?;
            return Ok((StatementKind::VariableDeclaration(VariableDeclaration::new(identifier, None, Some(e))), p2));
        }
        // `a, b := ...` or `a, b = ...`
        if self.is_op(p, Operator::Comma) {
            let mut targets: Vec<Expression> = Vec::new();
            targets.push(first);
            let mut q = p;
            while self.is_op(q, Operator::Comma)
                invariant
                    pos < q <= self.tokens().len(),
                decreases self.tokens().len() - q,
            {
                let (e, q2) = self.parse_expression(q + 1, false)?;
                targets.push(e);
                q = q2;
            }
            if self.is_op(q, Operator::ColonEquals) {
                let mut identifiers: Vec<Identifier> = Vec::new();
                let mut i: usize = 0;
                while i < targets.len()
                    invariant
                        0 <= i <= targets.len(),
                    decreases targets.len() - i,
                {
                    match &targets[i].kind {
                        ExpressionKind::Identifier(id) => identifiers.push(id.clone()),
                        _ => {
                            return Err(self.error_at(q, "only names can be declared with ':='"));
                        },
                    }
                    i = i + 1;
                }
                let (values, q3) = self.parse_expression_list(q + 1)?;
                return Ok((StatementKind::MultiVariableDeclaration { identifiers, values }, q3));
            }
            if self.is_op(q, Operator::Equals) {
                let (values, q3) = self.parse_expression_list(q + 1)?;
                return Ok((StatementKind::MultiAssignment { targets, values }, q3));
            }
            return Err(self.error_at(q, "expected '=' or ':=' after the target list"));
        }
        // `target = e`
        if self.is_op(p, Operator::Equals) {
            let (e, p2) = self.parse_expression(p + 1, false)?;
            let kind = match first.kind {
                ExpressionKind::Identifier(identifier) => StatementKind::Assignment { identifier, expr: e },
                ExpressionKind::FieldAccess { object, field } => StatementKind::FieldAssign { object: *object, field, expr: e },
                ExpressionKind::Dereference(pointer) => StatementKind::DerefAssign { pointer: *pointer, expr: e },
                ExpressionKind::IndexAccess { object, index } => StatementKind::IndexAssign { object: *object, index: *index, expr: e },
                _ => {
                    return Err(self.error_at(p, "invalid assignment target"));
                },
            };
            return Ok((kind, p2));
        }
        Ok((StatementKind::ExpressionStatement(first), p))
    }

    /// `if cond { } [else { } | else if ...]`
    fn parse_if(&self, pos: usize) -> (r: ParseResult<(StatementKind, usize)>)
        requires
            self.wf(),
            pos <= self.tokens().len() + 2,
            pos < self.tokens().len(),
        ensures
            r matches Ok((_, p)) ==> pos < p <= self.tokens().len(),
            lone_operand(self.tokens(), pos + 1, true) matches Some(k) ==> (op_at(self.tokens(), pos + 2, Operator::LeftBrace)
                && op_at(self.tokens(), pos + 3, Operator::RightBrace) && !kw_at(self.tokens(), pos + 4, Keyword::Else)
                ==> (r matches Ok((st, p)) && p == pos + 4 && (st matches StatementKind::If { condition, then_branch, else_branch }
                    && condition.kind == k && then_branch.len() == 0 && else_branch is None))),
        decreases self.tokens().len() - pos, 1nat,
    {
        let (condition, p) = self.parse_expression(pos + 1, true)?;
        let (then_branch, p) = self.parse_block(p)?;
        if self.is_kw(p, Keyword::Else) {
            if self.is_kw(p + 1, Keyword::If) {
                let span = self.span_at(p + 1);
                let (inner, p2) = self.parse_if(p + 1)?;
                let mut else_branch: Vec<Statement> = Vec::new();
                else_branch.push(Statement { kind: inner, span });
                return Ok((StatementKind::If { condition, then_branch, else_branch: Some(else_branch) }, p2));
            }
            let (else_branch, p2) = self.parse_block(p + 1)?;
            return Ok((StatementKind::If { condition, then_branch, else_branch: Some(else_branch) }, p2));
        }
        Ok((StatementKind::If { condition, then_branch, else_branch: None }, p))
    }

    /// `for (init; cond; post) { }`, `for cond { }` or `for { }`.
    fn parse_for(&self, pos: usize) -> (r: ParseResult<(StatementKind, usize)>)
        requires
            self.wf(),
            pos <= self.tokens().len() + 2,
            pos < self.tokens().len(),
        ensures
            r matches Ok((_, p)) ==> pos < p <= self.tokens().len(),
            op_at(self.tokens(), pos + 1, Operator::LeftBrace) && op_at(self.tokens(), pos + 2, Operator::RightBrace)
                ==> (r matches Ok((st, p)) && p == pos + 3 && (st matches StatementKind::For { initializer, condition, post_operation, body }
                    && initializer is None && condition is None && post_operation is None && body.len() == 0)),
        decreases self.tokens().len() - pos, 1nat,
    {
        let p = pos + 1;
        if self.is_op(p, Operator::LeftParen) {
            let mut q = p + 1;
            let mut initializer: Option<Box<Statement>> = None;
            if !self.is_op(q, Operator::Semicolon) {
                if q >= self.tokens.len() {
                    return Err(self.error_at(q, "unterminated 'for' header"));
                }
                let span = self.span_at(q);
                let (k, q2) = self.parse_statement_kind(q)?;
                initializer = Some(Box::new(Statement { kind: k, span }));
                q = q2;
            }
            let q = self.expect_op(q, Operator::Semicolon, "expected ';' after the loop initializer")?;
            let mut q = q;
            let mut condition: Option<Expression> = None;
            if !self.is_op(q, Operator::Semicolon) {
                let (c, q2) = self.parse_expression(q, false)?;
                condition = Some(c);
                q = q2;
            }
            let q = self.expect_op(q, Operator::Semicolon, "expected ';' after the loop condition")?;
            let mut q = q;
            let mut post_operation: Option<Box<Statement>> = None;
            if !self.is_op(q, Operator::RightParen) {
                if q >= self.tokens.len() {
                    return Err(self.error_at(q, "unterminated 'for' header"));
                }
                let span = self.span_at(q);
                let (k, q2) = self.parse_statement_kind(q)?;
                post_operation = Some(Box::new(Statement { kind: k, span }));
                q = q2;
            }
            let q = self.expect_op(q, Operator::RightParen, "expected ')' after the loop header")?;
            let (body, q) = self.parse_block(q)?;
            return Ok((StatementKind::For { initializer, condition, post_operation, body }, q));
        }
        if self.is_op(p, Operator::LeftBrace) {
            let (body, q) = self.parse_block(p)?;
            return Ok((StatementKind::For { initializer: None, condition: None, post_operation: None, body }, q));
        }
        let (c, q) = self.parse_expression(p, true)?;
        let (body, q) = self.parse_block(q)?;
        Ok((StatementKind::For { initializer: None, condition: Some(c), post_operation: None, body }, q))
    }

    /// `switch subject { when .V(b) { } when _ { } }`
    fn parse_switch(&self, pos: usize) -> (r: ParseResult<(StatementKind, usize)>)
        requires
            self.wf(),
            pos <= self.tokens().len() + 2,
            pos < self.tokens().len(),
        ensures
            r matches Ok((_, p)) ==> pos < p <= self.tokens().len(),
            lone_operand(self.tokens(), pos + 1, true) matches Some(k) ==> (op_at(self.tokens(), pos + 2, Operator::LeftBrace)
                && op_at(self.tokens(), pos + 3, Operator::RightBrace) ==> (r matches Ok((st, p)) && p == pos + 4
                && (st matches StatementKind::Switch { subject, arms } && subject.kind == k && arms.len() == 0))),
        decreases self.tokens().len() - pos, 1nat,
    {
        let (subject, p) = self.parse_expression(pos + 1, true)?;
        let mut p = self.expect_op(p, Operator::LeftBrace, "expected '{' after the switch subject")?;
        let mut arms: Vec<SwitchArm> = Vec::new();
        while !self.is_op(p, Operator::RightBrace)
            invariant
                pos < p <= self.tokens().len() + 1,
                lone_operand(self.tokens(), pos + 1, true) is Some && op_at(self.tokens(), pos + 2, Operator::LeftBrace)
                    && op_at(self.tokens(), pos + 3, Operator::RightBrace) ==> p == pos + 3 && arms.len() == 0,
            decreases self.tokens().len() + 1 - p,
        {
            if !self.is_kw(p, Keyword::When) {
                return Err(self.error_at(p, "expected 'when' or '}' in the switch"));
            }
            let mut q = p + 1;
            let pattern = if self.is_op(q, Operator::Dot) {
                let (variant, q2) = self.expect_identifier(q + 1, "expected a variant name after '.'")?;
                q = q2;
                let mut binding: Option<Identifier> = None;
                if self.is_op(q, Operator::LeftParen) {
                    let (b, q3) = self.expect_identifier(q + 1, "expected a binding name")?;
                    q = self.expect_op(q3, Operator::RightParen, "expected ')' after the binding")?;
                    binding = Some(b);
                }
                Pattern::EnumVariant { variant, binding }
            } else {
                let (id, q2) = self.expect_identifier(q, "expected a pattern")?;
                assert(['_']@ == seq!['_']);
                if id.value.as_str().unicode_len() == 1 && id.value.as_str().get_char(0) == '_' {
                    q = q2;
                    Pattern::Wildcard
                } else {
                    return Err(self.error_at(q, "expected '.Variant' or '_' as a pattern"));
                }
            };
            let (body, q) = self.parse_block(q)?;
            arms.push(SwitchArm { pattern, body });
            p = q;
        }
        Ok((StatementKind::Switch { subject, arms }, p + 1))
    }

    // ------------------------------------------------------------------
    // Expressions
    // ------------------------------------------------------------------

    /// A full expression. `ns` forbids `Name {` struct literals at this level
    /// (set in `if`/`for`/`switch` headers, where `{` opens the body).
    pub fn parse_expression(&self, pos: usize, ns: bool) -> (r: ParseResult<(Expression, usize)>)
        requires
            self.wf(),
            pos <= self.tokens().len() + 2,
        ensures
            r matches Ok((e, _)) ==> binds_left(e, 0),
            r matches Ok((_, p)) ==> pos < p <= self.tokens().len(),
            lone_operand(self.tokens(), pos as int, ns) matches Some(k) ==> (r matches Ok((e, p)) && p == pos + 1 && e.kind == k),
        decreases self.tokens().len() - pos, 20nat,
    {
        self.parse_binary(pos, ns, 0)
    }

    /// Left-associative binary operators of precedence `level` and tighter.
    fn parse_binary(&self, pos: usize, ns: bool, level: usize) -> (r: ParseResult<(Expression, usize)>)
        requires
            self.wf(),
            pos <= self.tokens().len() + 2,
            level <= BINARY_LEVELS,
        ensures
            r matches Ok((e, _)) ==> binds_left(e, level as nat),
            r matches Ok((_, p)) ==> pos < p <= self.tokens().len(),
            lone_operand(self.tokens(), pos as int, ns) matches Some(k) ==> (r matches Ok((e, p)) && p == pos + 1 && e.kind == k),
        decreases self.tokens().len() - pos, 19 - level,
    {
        if level == BINARY_LEVELS {
            return self.parse_cast(pos, ns);
        }
        let (first, mut p) = self.parse_binary(pos, ns, level + 1)?;
        proof { lemma_binds_left_looser(first, (level + 1) as nat, level as nat); }
        let mut left = first;
        loop
            invariant
                pos < p <= self.tokens().len(),
                level < BINARY_LEVELS,
                binds_left(left, level as nat),
                lone_operand(self.tokens(), pos as int, ns) matches Some(k) ==> p == pos + 1 && left.kind == k,
            decreases self.tokens().len() - p,
        {
            let op = if p < self.tokens.len() {
                match &self.tokens[p].kind {
                    TokenKind::Operator(o) => {
                        if binary_op_at_level(*o, level) { Some(*o) } else { None }
                    },
                    _ => None,
                }
            } else {
                None
            };
            match op {
                Some(operator) => {
                    proof {
                        if lone_operand(self.tokens(), pos as int, ns) is Some {
                            lemma_closer_not_binary(operator, level as nat);
                        }
                    }
                    let span = left.span;
                    proof { lemma_level_prec(operator, level as nat); }
                    let (right, p2) = self.parse_binary(p + 1, ns, level + 1)?;
                    left = Expression::at(
                        ExpressionKind::Binary { left: Box::new(left), operator, right: Box::new(right) },
                        span,
                    );
                    p = p2;
                },
                None => {
                    break;
                },
            }
        }
        Ok((left, p))
    }

    /// `e as T as U ...`
    fn parse_cast(&self, pos: usize, ns: bool) -> (r: ParseResult<(Expression, usize)>)
        requires
            self.wf(),
            pos <= self.tokens().len() + 2,
        ensures
            r matches Ok((e, _)) ==> !(e.kind is Binary),
            r matches Ok((_, p)) ==> pos < p <= self.tokens().len(),
            lone_operand(self.tokens(), pos as int, ns) matches Some(k) ==> (r matches Ok((e, p)) && p == pos + 1 && e.kind == k),
        decreases self.tokens().len() - pos, 8nat,
    {
        let (first, mut p) = self.parse_unary(pos, ns)?;
        let mut e = first;
        while self.is_kw(p, Keyword::As)
            invariant
                pos < p <= self.tokens().len(),
                !(e.kind is Binary),
                lone_operand(self.tokens(), pos as int, ns) matches Some(k) ==> p == pos + 1 && e.kind == k,
            decreases self.tokens().len() - p,
        {
            let span = e.span;
            let (target_type, p2) = self.parse_type(p + 1)?;
            e = Expression::at(ExpressionKind::Cast { expr: Box::new(e), target_type }, span);
            p = p2;
        }
        Ok((e, p))
    }

    /// `-e`, `!e`, `~e`
    fn parse_unary(&self, pos: usize, ns: bool) -> (r: ParseResult<(Expression, usize)>)
        requires
            self.wf(),
            pos <= self.tokens().len() + 2,
        ensures
            r matches Ok((e, _)) ==> !(e.kind is Binary),
            r matches Ok((_, p)) ==> pos < p <= self.tokens().len(),
            lone_operand(self.tokens(), pos as int, ns) matches Some(k) ==> (r matches Ok((e, p)) && p == pos + 1 && e.kind == k),
        decreases self.tokens().len() - pos, 7nat,
    {
        if pos < self.tokens.len() {
            let op = match &self.tokens[pos].kind {
                TokenKind::Operator(Operator::Minus) => Some(Operator::Minus),
                TokenKind::Operator(Operator::LogicalNot) => Some(Operator::LogicalNot),
                TokenKind::Operator(Operator::Tilde) => Some(Operator::Tilde),
                _ => None,
            };
            match op {
                Some(operator) => {
                    let span = self.span_at(pos);
                    let (inner, p) = self.parse_unary(pos + 1, ns)?;
                    return Ok((Expression::at(ExpressionKind::Unary { operator, expression: Box::new(inner) }, span), p));
                },
                None => {},
            }
        }
        self.parse_postfix(pos, ns)
    }

    /// Calls, field accesses, `.&`, `.*`, `.[i]`, slices and variant payloads.
    fn parse_postfix(&self, pos: usize, ns: bool) -> (r: ParseResult<(Expression, usize)>)
        requires
            self.wf(),
            pos <= self.tokens().len() + 2,
        ensures
            r matches Ok((e, _)) ==> !(e.kind is Binary),
            r matches Ok((_, p)) ==> pos < p <= self.tokens().len(),
            lone_operand(self.tokens(), pos as int, ns) matches Some(k) ==> (r matches Ok((e, p)) && p == pos + 1 && e.kind == k),
        decreases self.tokens().len() - pos, 6nat,
    {
        let (first, mut p) = self.parse_atom(pos, ns)?;
        let mut e = first;
        loop
            invariant
                pos < p <= self.tokens().len(),
                !(e.kind is Binary),
                lone_operand(self.tokens(), pos as int, ns) matches Some(k) ==> p == pos + 1 && e.kind == k,
            decreases self.tokens().len() - p,
        {
            let span = e.span;
            if self.is_op(p, Operator::LeftParen) {
                let (args, p2) = self.parse_args(p + 1, Operator::RightParen)?;
                e = Expression::at(ExpressionKind::Call { callee: Box::new(e), args }, span);
                p = p2;
            } else if self.is_op(p, Operator::Dot) {
                let q = p + 1;
                if self.is_op(q, Operator::Ampersand) {
                    e = Expression::at(ExpressionKind::AddressOf(Box::new(e)), span);
                    p = q + 1;
                } else if self.is_op(q, Operator::Star) {
                    e = Expression::at(ExpressionKind::Dereference(Box::new(e)), span);
                    p = q + 1;
                } else if self.is_op(q, Operator::LeftBracket) {
                    let (ne, p2) = self.parse_index_suffix(e, q + 1)?;
                    e = ne;
                    p = p2;
                } else {
                    let (field, q2) = self.expect_identifier(q, "expected a field name after '.'")?;
                    let is_variant = !ns && self.is_op(q2, Operator::LeftBrace) && match &e.kind {
                        ExpressionKind::Identifier(_) => true,
                        _ => false,
                    };
                    if is_variant {
                        let enum_name = match &e.kind {
                            ExpressionKind::Identifier(id) => id.clone(),
                            _ => field.clone(),
                        };
                        let (fields, q3) = self.parse_named_exprs(q2 + 1)?;
                        e = Expression::at(ExpressionKind::EnumVariantConstruct { enum_name, variant: field, fields }, span);
                        p = q3;
                    } else {
                        e = Expression::at(ExpressionKind::FieldAccess { object: Box::new(e), field }, span);
                        p = q2;
                    }
                }
            } else {
                break;
            }
        }
        Ok((e, p))
    }

    /// After `.[`: an index `i]` or a slice `a..b]`, `a.=b]`, `..]`, ...
    fn parse_index_suffix(&self, object: Expression, pos: usize) -> (r: ParseResult<(Expression, usize)>)
        requires
            self.wf(),
            pos <= self.tokens().len() + 2,
            pos >= 1,
        ensures
            r matches Ok((e, _)) ==> !(e.kind is Binary),
            r matches Ok((_, p)) ==> pos < p <= self.tokens().len(),
            lone_operand(self.tokens(), pos as int, false) is Some && op_at(self.tokens(), pos + 1, Operator::RightBracket)
                ==> (r matches Ok((e, p)) && p == pos + 2 && e.kind is IndexAccess),
        decreases self.tokens().len() + 1 - pos, 4nat,
    {
        let span = object.span;
        let mut p = pos;
        let mut start: Option<Box<Expression>> = None;
        if !self.is_op(p, Operator::DotDot) && !self.is_op(p, Operator::DotEquals) {
            if p >= self.tokens.len() {
                return Err(self.error_at(p, "expected an index"));
            }
            let (s, p2) = self.parse_expression(p, false)?;
            if self.is_op(p2, Operator::RightBracket) {
                return Ok((Expression::at(
                    ExpressionKind::IndexAccess { object: Box::new(object), index: Box::new(s) },
                    span,
                ), p2 + 1));
            }
            start = Some(Box::new(s));
            p = p2;
        }
        let inclusive = self.is_op(p, Operator::DotEquals);
        if !inclusive && !self.is_op(p, Operator::DotDot) {
            return Err(self.error_at(p, "expected ']', '..' or '.=' in the index"));
        }
        p = p + 1;
        let mut end: Option<Box<Expression>> = None;
        if !self.is_op(p, Operator::RightBracket) {
            if p >= self.tokens.len() {
                return Err(self.error_at(p, "expected ']' after the slice"));
            }
            let (e, p2) = self.parse_expression(p, false)?;
            end = Some(Box::new(e));
            p = p2;
        }
        let p = self.expect_op(p, Operator::RightBracket, "expected ']' after the slice")?;
        Ok((Expression::at(ExpressionKind::Slice { object: Box::new(object), start, end, inclusive }, span), p))
    }

    /// `e, e, ... <close>` (the opening token already consumed).
    fn parse_args(&self, pos: usize, close: Operator) -> (r: ParseResult<(Vec<Expression>, usize)>)
        requires
            self.wf(),
            pos <= self.tokens().len() + 2,
            pos >= 1,
            pos <= self.tokens().len() + 1,
        ensures
            r matches Ok((_, p)) ==> pos < p <= self.tokens().len(),
            op_at(self.tokens(), pos as int, close) ==> (r matches Ok((v, p)) && p == pos + 1 && v.len() == 0),
            lone_operand(self.tokens(), pos as int, false) matches Some(k) ==> (op_at(self.tokens(), pos + 1, close)
                && close != Operator::Comma ==> (r matches Ok((v, p)) && p == pos + 2 && v.len() == 1 && v@[0].kind == k)),
        decreases self.tokens().len() + 1 - pos, 4nat,
    {
        let mut out: Vec<Expression> = Vec::new();
        let mut p = pos;
        while !self.is_op(p, close)
            invariant
                pos <= p <= self.tokens().len() + 1,
                op_at(self.tokens(), pos as int, close) ==> p == pos && out.len() == 0,
                lone_operand(self.tokens(), pos as int, false) matches Some(k) ==> (op_at(self.tokens(), pos + 1, close)
                    && close != Operator::Comma ==> (p == pos && out.len() == 0) || (p == pos + 1 && out.len() == 1 && out@[0].kind == k)),
            decreases self.tokens().len() + 1 - p,
        {
            if p >= self.tokens.len() {
                return Err(self.error_at(p, "unterminated argument list"));
            }
            let (e, p2) = self.parse_expression(p, false)?;
            out.push(e);
            p = p2;
            if self.is_op(p, Operator::Comma) {
                p = p + 1;
            } else if !self.is_op(p, close) {
                return Err(self.error_at(p, "expected ',' in the list"));
            }
        }
        Ok((out, p + 1))
    }

    /// `name: e, ... }` (the `{` already consumed).
    fn parse_named_exprs(&self, pos: usize) -> (r: ParseResult<(Vec<(Identifier, Expression)>, usize)>)
        requires
            self.wf(),
            pos <= self.tokens().len() + 2,
            pos >= 1,
            pos <= self.tokens().len() + 1,
        ensures
            r matches Ok((_, p)) ==> pos < p <= self.tokens().len(),
            op_at(self.tokens(), pos as int, Operator::RightBrace) ==> (r matches Ok((v, p)) && p == pos + 1 && v.len() == 0),
        decreases self.tokens().len() + 1 - pos, 4nat,
    {
        let mut out: Vec<(Identifier, Expression)> = Vec::new();
        let mut p = pos;
        while !self.is_op(p, Operator::RightBrace)
            invariant
                pos <= p <= self.tokens().len() + 1,
                op_at(self.tokens(), pos as int, Operator::RightBrace) ==> p == pos && out.len() == 0,
            decreases self.tokens().len() + 1 - p,
        {
            let (name, p2) = self.expect_identifier(p, "expected a field name")?;
            let p3 = self.expect_op(p2, Operator::Colon, "expected ':' after the field name")?;
            let (e, p4) = self.parse_expression(p3, false)?;
            out.push((name, e));
            p = p4;
            if self.is_op(p, Operator::Comma) {
                p = p + 1;
            } else if !self.is_op(p, Operator::RightBrace) {
                return Err(self.error_at(p, "expected ',' or '}' after a field"));
            }
        }
        Ok((out, p + 1))
    }

    /// Literals, names, `(e)`, `[a, b]`, builtin calls and type values.
    fn parse_atom(&self, pos: usize, ns: bool) -> (r: ParseResult<(Expression, usize)>)
        requires
            self.wf(),
            pos <= self.tokens().len() + 2,
        ensures
            r matches Ok((e, _)) ==> !(e.kind is Binary),
            r matches Ok((_, p)) ==> pos < p <= self.tokens().len(),
            lone_operand(self.tokens(), pos as int, ns) matches Some(k) ==> (r matches Ok((e, p)) && p == pos + 1 && e.kind == k),
        decreases self.tokens().len() - pos, 5nat,
    {
        if pos >= self.tokens.len() {
            return Err(self.error_at(pos, "expected an expression"));
        }
        let span = self.span_at(pos);
        match &self.tokens[pos].kind {
            TokenKind::Literal(l) => Ok((Expression::at(ExpressionKind::Literal(l.clone()), span), pos + 1)),
            TokenKind::Identifier(id) => {
                if self.is_op(pos + 1, Operator::DoubleColon) {
                    let (member, p) = self.expect_identifier(pos + 2, "expected a name after '::'")?;
                    return Ok((Expression::at(ExpressionKind::QualifiedAccess { module: id.clone(), member }, span), p));
                }
                if !ns && self.is_op(pos + 1, Operator::LeftBrace) && self.looks_like_struct_literal(pos + 2) {
                    let (fields, p) = self.parse_named_exprs(pos + 2)?;
                    return Ok((Expression::at(ExpressionKind::StructConstruct { struct_name: id.clone(), fields }, span), p));
                }
                Ok((Expression::at(ExpressionKind::Identifier(id.clone()), span), pos + 1))
            },
            TokenKind::Operator(Operator::LeftParen) => {
                if pos + 1 >= self.tokens.len() {
                    return Err(self.error_at(pos + 1, "expected an expression after '('"));
                }
                let (inner, p) = self.parse_expression(pos + 1, false)?;
                let p = self.expect_op(p, Operator::RightParen, "expected ')'")?;
                Ok((Expression::at(ExpressionKind::Grouping(Box::new(inner)), span), p))
            },
            TokenKind::Operator(Operator::LeftBracket) => {
                let (elements, p) = self.parse_args(pos + 1, Operator::RightBracket)?;
                Ok((Expression::at(ExpressionKind::ArrayLiteral { elements }, span), p))
            },
            TokenKind::BuiltinFunction(b) => {
                let p = self.expect_op(pos + 1, Operator::LeftParen, "expected '(' after the builtin")?;
                let (args, p) = self.parse_args(p, Operator::RightParen)?;
                Ok((Expression::at(ExpressionKind::BuiltinCall { builtin: *b, args }, span), p))
            },
            TokenKind::BuiltinType(_) | TokenKind::Keyword(Keyword::Struct) | TokenKind::Keyword(Keyword::Enum) => {
                let (t, p) = self.parse_type(pos)?;
                Ok((Expression::at(ExpressionKind::TypeValue(t), span), p))
            },
            _ => Err(self.token_error(pos, "expected an expression")),
        }
    }

    /// After `Name {`: a struct literal starts with `}` or `field :`.
    fn looks_like_struct_literal(&self, pos: usize) -> (r: bool)
        requires
            self.wf(),
            pos <= self.tokens().len() + 2,
        ensures
            r == (op_at(self.tokens(), pos as int, Operator::RightBrace) || (pos < self.tokens().len()
                && self.tokens()[pos as int].kind is Identifier && op_at(self.tokens(), pos + 1, Operator::Colon))),
    {
        self.is_op(pos, Operator::RightBrace)
            || (self.ident_at(pos).is_some() && self.is_op(pos + 1, Operator::Colon))
    }
}

} // verus!
