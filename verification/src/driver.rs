//! The compiler driver's decisions: which stage to stop after, where outputs
//! go, how imports are resolved and how errors are reported. Reading files
//! and running the C compiler are left to the caller, which answers the
//! requests these functions make.
use vstd::prelude::*;

use crate::diagnostics::{CompilerError, ErrorKind, source_line_at};
use crate::driver::imports::still_resolved;
use crate::driver::paths::{
    file_stem_or_default, names_of, path_debug, path_debug_text, path_extension, set_extension, stem_or_default,
    with_extension,
};
use crate::frontend::analyze::{AnalysisError, analysis_error_text, analyze, analyzed, emitted, imports_unknown, plain_decl};
use crate::frontend::ast::{same_decl, Ast, DeclarationNode};
use crate::frontend::lexer::lex;
use crate::driver::paths::candidates;
use crate::frontend::parser::{ParseError, Parser, declarations_introduced, line_text, parse_error_text, simple_reach, starts_declaration, without_comments};
use crate::frontend::tokens::Token;
use crate::frontend::typed_ast::{TypedDecl, TypedModule, TypedProgram};
use crate::text::{blank_text, is_blank, push_str, str_to_string, white_space};

pub mod paths;
pub mod imports;

verus! {

// ---------------------------------------------------------------------------
// Emit kind
// ---------------------------------------------------------------------------

/// Which compilation stage to stop after: `Lex`, `Parse` and `Typed` print
/// the tokens, the syntax tree or the typed program; `Llvm` writes LLVM IR;
/// `Bin` (the default) links a native binary.
#[derive(Debug, Clone, Copy, PartialEq, Eq, Structural)]
pub enum EmitKind {
    Lex,
    Parse,
    Typed,
    Llvm,
    Bin,
}

impl Default for EmitKind {
    fn default() -> (e: Self)
        ensures
            e == EmitKind::Bin,
    {
        EmitKind::Bin
    }
}

/// ASCII lower case of one character.
pub open spec fn ascii_lower(c: char) -> char {
    if 'A' <= c && c <= 'Z' {
        ((c as int) + 32) as char
    } else {
        c
    }
}

pub open spec fn lowered(s: Seq<char>) -> Seq<char> {
    Seq::new(s.len(), |i: int| ascii_lower(s[i]))
}

/// The name of a stage, as `--emit` spells it.
pub open spec fn emit_name(k: EmitKind) -> Seq<char> {
    match k {
        EmitKind::Lex => seq!['l', 'e', 'x'],
        EmitKind::Parse => seq!['p', 'a', 'r', 's', 'e'],
        EmitKind::Typed => seq!['t', 'y', 'p', 'e', 'd'],
        EmitKind::Llvm => seq!['l', 'l', 'v', 'm'],
        EmitKind::Bin => seq!['b', 'i', 'n'],
    }
}

/// The stage named by `s` (ignoring ASCII case).
pub open spec fn emit_named(s: Seq<char>) -> Option<EmitKind> {
    let l = lowered(s);
    if l == emit_name(EmitKind::Lex) {
        Some(EmitKind::Lex)
    } else if l == emit_name(EmitKind::Parse) {
        Some(EmitKind::Parse)
    } else if l == emit_name(EmitKind::Typed) {
        Some(EmitKind::Typed)
    } else if l == emit_name(EmitKind::Llvm) {
        Some(EmitKind::Llvm)
    } else if l == emit_name(EmitKind::Bin) {
        Some(EmitKind::Bin)
    } else {
        None
    }
}

/// `str::to_ascii_lowercase`, character by character.
pub fn to_ascii_lowercase(s: &str) -> (r: String)
    ensures
        r@ == lowered(s@),
{
    let chars = crate::text::str_to_chars(s);
    let mut out = String::new();
    let mut i: usize = 0;
    while i < chars.len()
        invariant
            0 <= i <= chars.len(),
            chars@ == s@,
            out@ == lowered(s@).subrange(0, i as int),
        decreases chars.len() - i,
    {
        let c = chars[i];
        let l = if 'A' <= c && c <= 'Z' {
            ((c as u8) + 32) as char
        } else {
            c
        };
        proof {
            if 'A' <= c && c <= 'Z' {
                assert(l == ((c as int) + 32) as char);
            }
        }
        crate::text::push_char(&mut out, l);
        proof {
            assert(out@ =~= lowered(s@).subrange(0, i + 1));
        }
        i = i + 1;
    }
    proof {
        assert(lowered(s@).subrange(0, chars.len() as int) =~= lowered(s@));
    }
    out
}

impl EmitKind {
    /// True for the stages that need the LLVM backend (`llvm` and `bin`).
    pub fn needs_backend(&self) -> (r: bool)
        ensures
            r == (*self == EmitKind::Llvm || *self == EmitKind::Bin),
    {
        match self {
            EmitKind::Llvm | EmitKind::Bin => true,
            _ => false,
        }
    }

    /// The stage's name, as `--emit` spells it.
    pub fn name(&self) -> (s: &'static str)
        ensures
            s@ == emit_name(*self),
    {
        proof {
            reveal_strlit("lex");
            reveal_strlit("parse");
            reveal_strlit("typed");
            reveal_strlit("llvm");
            reveal_strlit("bin");
        }
        match self {
            EmitKind::Lex => "lex",
            EmitKind::Parse => "parse",
            EmitKind::Typed => "typed",
            EmitKind::Llvm => "llvm",
            EmitKind::Bin => "bin",
        }
    }

    /// The stage named `s`, ignoring ASCII case; otherwise the message
    /// `invalid --emit '<s>': expected lex|parse|typed|llvm|bin`.
    pub fn parse_name(s: &str) -> (r: Result<EmitKind, String>)
        ensures
            match emit_named(s@) {
                Some(k) => r == Ok::<EmitKind, String>(k),
                None => r is Err,
            },
            r matches Err(m) ==> m@ == "invalid --emit '"@ + lowered(s@) + "': expected lex|parse|typed|llvm|bin"@,
    {
        let l = to_ascii_lowercase(s);
        let candidates: [EmitKind; 5] = [EmitKind::Lex, EmitKind::Parse, EmitKind::Typed, EmitKind::Llvm, EmitKind::Bin];
        let mut i: usize = 0;
        while i < 5
            invariant
                0 <= i <= 5,
                l@ == lowered(s@),
                candidates@ == seq![EmitKind::Lex, EmitKind::Parse, EmitKind::Typed, EmitKind::Llvm, EmitKind::Bin],
                forall|j: int| 0 <= j < i ==> emit_named(s@) != Some(#[trigger] candidates@[j]),
            decreases 5 - i,
        {
            let k = candidates[i];
            let name = k.name();
            if crate::frontend::typed_ast::str_eq(l.as_str(), name) {
                proof {
                    lemma_names_distinct();
                }
                return Ok(k);
            }
            proof {
                lemma_names_distinct();
            }
            i = i + 1;
        }
        let mut m = str_to_string("invalid --emit '");
        push_str(&mut m, l.as_str());
        push_str(&mut m, "': expected lex|parse|typed|llvm|bin");
        proof {
            reveal_strlit("invalid --emit '");
            reveal_strlit("': expected lex|parse|typed|llvm|bin");
        }
        proof {
            assert(candidates@[0] == EmitKind::Lex);
            assert(candidates@[1] == EmitKind::Parse);
            assert(candidates@[2] == EmitKind::Typed);
            assert(candidates@[3] == EmitKind::Llvm);
            assert(candidates@[4] == EmitKind::Bin);
        }
        Err(m)
    }
}

proof fn lemma_names_distinct()
    ensures
        forall|a: EmitKind, b: EmitKind| a != b ==> emit_name(a) != emit_name(b),
{
    assert forall|a: EmitKind, b: EmitKind| a != b implies emit_name(a) != emit_name(b) by {
        if emit_name(a).len() == emit_name(b).len() {
            assert(emit_name(a)[0] != emit_name(b)[0] || emit_name(a)[1] != emit_name(b)[1]);
        }
    }
}

/// Every stage is read back from its own name.
pub proof fn lemma_emit_name_round_trip(k: EmitKind)
    ensures
        emit_named(emit_name(k)) == Some(k),
{
    assert(lowered(emit_name(k)) =~= emit_name(k));
    lemma_names_distinct();
}

impl core::str::FromStr for EmitKind {
    type Err = String;

    fn from_str(s: &str) -> (r: Result<EmitKind, String>)
        ensures
            match emit_named(s@) {
                Some(k) => r == Ok::<EmitKind, String>(k),
                None => r is Err,
            },
            r matches Err(m) ==> m@ == "invalid --emit '"@ + lowered(s@) + "': expected lex|parse|typed|llvm|bin"@,
    {
        EmitKind::parse_name(s)
    }
}

// ---------------------------------------------------------------------------
// Compilation options
// ---------------------------------------------------------------------------

/// Owned compilation options; paths are kept as text.
#[derive(Debug)]
pub struct CompilationOptions {
    /// Entry `.fib` file.
    pub project_path: String,
    /// In-memory source used instead of reading `project_path`.
    pub source_override: Option<String>,
    /// Extra directories searched for imports, after the entry file's own.
    pub include_paths: Vec<String>,
    /// Output binary (or, with `--emit=llvm`, `.ll`) path.
    pub output: Option<String>,
    /// Stage to stop after.
    pub emit: EmitKind,
    /// `--check`: run the frontend only; overrides `emit`.
    pub check_only: bool,
    /// Keep the intermediate `.ll` file for `--emit=bin`.
    pub emit_llvm: bool,
    /// Explicit `.ll` output path (implies keeping it).
    pub llvm_out: Option<String>,
    /// C compiler used for linking.
    pub cc: Option<String>,
    /// Optimization level passed to the C compiler as `-O<level>`.
    pub opt_level: Option<String>,
}

impl Clone for CompilationOptions {
    fn clone(&self) -> (r: Self) {
        CompilationOptions {
            project_path: self.project_path.clone(),
            source_override: self.source_override.clone(),
            include_paths: self.include_paths.clone(),
            output: self.output.clone(),
            emit: self.emit,
            check_only: self.check_only,
            emit_llvm: self.emit_llvm,
            llvm_out: self.llvm_out.clone(),
            cc: self.cc.clone(),
            opt_level: self.opt_level.clone(),
        }
    }
}

/// The stage a compilation stops after: `--check` forces `Typed`.
pub open spec fn effective(o: CompilationOptions) -> EmitKind {
    if o.check_only {
        EmitKind::Typed
    } else {
        o.emit
    }
}

impl CompilationOptions {
    /// Defaults for an entry file: link a binary, no extra roots or outputs.
    pub fn new(project_path: String) -> (o: Self)
        ensures
            o.project_path == project_path,
            o.source_override is None,
            o.include_paths.len() == 0,
            o.output is None,
            o.emit == EmitKind::Bin,
            !o.check_only,
            !o.emit_llvm,
            o.llvm_out is None,
            o.cc is None,
            o.opt_level is None,
    {
        CompilationOptions {
            project_path,
            source_override: None,
            include_paths: Vec::new(),
            output: None,
            emit: EmitKind::Bin,
            check_only: false,
            emit_llvm: false,
            llvm_out: None,
            cc: None,
            opt_level: None,
        }
    }

    /// The stage that will actually run: `--check` forces `Typed`.
    pub fn effective_emit(&self) -> (e: EmitKind)
        ensures
            e == effective(*self),
    {
        if self.check_only {
            EmitKind::Typed
        } else {
            self.emit
        }
    }

    /// The entry file's directory followed by the include paths, in search order.
    pub fn search_roots(&self, src_root: &str) -> (r: Vec<String>)
        ensures
            r.len() == self.include_paths.len() + 1,
            r@[0]@ == src_root@,
            forall|i: int| 0 <= i < self.include_paths.len() ==> #[trigger] r@[i + 1] == self.include_paths@[i],
    {
        let mut roots: Vec<String> = Vec::new();
        roots.push(str_to_string(src_root));
        let mut i: usize = 0;
        while i < self.include_paths.len()
            invariant
                0 <= i <= self.include_paths.len(),
                roots.len() == i + 1,
                roots@[0]@ == src_root@,
                forall|j: int| 0 <= j < i ==> #[trigger] roots@[j + 1] == self.include_paths@[j],
            decreases self.include_paths.len() - i,
        {
            roots.push(self.include_paths[i].clone());
            i = i + 1;
        }
        roots
    }
}

// ---------------------------------------------------------------------------
// Errors
// ---------------------------------------------------------------------------

/// A driver error. `Parse` and `Analysis` keep the underlying diagnostic.
#[derive(Debug)]
pub enum DriverError {
    NotAFile(String),
    NotFibFile(String),
    Io { path: String, message: String },
    Parse(ParseError),
    ImportNotFound { module: String, searched: Vec<String> },
    CircularImport { stack: Vec<String> },
    ImportRead { module: String, path: String, message: String },
    Analysis(AnalysisError),
    ModuleAnalysis { module: String, source: AnalysisError },
    Lower(String),
    Emit { path: String, reason: String },
    Link { status: String, stdout: String, stderr: String },
    CcNotFound { attempted: Vec<String> },
    InvalidOptLevel(String),
    LlvmUnavailable(String),
    EmptyImportPath,
}

impl From<ParseError> for DriverError {
    fn from(e: ParseError) -> (r: Self) {
        DriverError::Parse(e)
    }
}

impl vstd::std_specs::convert::FromSpecImpl<ParseError> for DriverError {
    open spec fn obeys_from_spec() -> bool {
        true
    }

    open spec fn from_spec(e: ParseError) -> Self {
        DriverError::Parse(e)
    }
}

impl From<AnalysisError> for DriverError {
    fn from(e: AnalysisError) -> (r: Self) {
        DriverError::Analysis(e)
    }
}

impl vstd::std_specs::convert::FromSpecImpl<AnalysisError> for DriverError {
    open spec fn obeys_from_spec() -> bool {
        true
    }

    open spec fn from_spec(e: AnalysisError) -> Self {
        DriverError::Analysis(e)
    }
}

/// The kind a driver error is reported under.
pub open spec fn driver_error_kind(e: DriverError) -> ErrorKind {
    match e {
        DriverError::Parse(_) => ErrorKind::Parse,
        DriverError::Analysis(a) => a.kind,
        DriverError::ModuleAnalysis { source, .. } => source.kind,
        DriverError::NotAFile(_) | DriverError::NotFibFile(_) | DriverError::Io { .. } | DriverError::ImportRead { .. }
        | DriverError::Emit { .. } | DriverError::EmptyImportPath => ErrorKind::Io,
        DriverError::ImportNotFound { .. } | DriverError::CircularImport { .. } => ErrorKind::Name,
        DriverError::Lower(_) => ErrorKind::Backend,
        DriverError::Link { .. } | DriverError::CcNotFound { .. } | DriverError::InvalidOptLevel(_)
        | DriverError::LlvmUnavailable(_) => ErrorKind::Toolchain,
    }
}

/// The texts of `v` separated by `sep`.
pub open spec fn joined_text(v: Seq<Seq<char>>, sep: Seq<char>) -> Seq<char>
    decreases v.len(),
{
    if v.len() == 0 {
        Seq::empty()
    } else if v.len() == 1 {
        v[0]
    } else {
        joined_text(v.drop_last(), sep) + sep + v.last()
    }
}

fn joined(v: &Vec<String>, sep: &str) -> (s: String)
    ensures
        s@ == joined_text(names_of(v@), sep@),
{
    let mut s = crate::text::empty_string();
    let mut i: usize = 0;
    proof {
        assert(names_of(v@).subrange(0, 0) =~= Seq::<Seq<char>>::empty());
    }
    while i < v.len()
        invariant
            0 <= i <= v.len(),
            s@ == joined_text(names_of(v@).subrange(0, i as int), sep@),
        decreases v.len() - i,
    {
        proof {
            let names = names_of(v@);
            assert(names.subrange(0, i + 1).drop_last() =~= names.subrange(0, i as int));
            assert(names.subrange(0, i + 1).last() == v@[i as int]@);
            if i == 0 {
                assert(names.subrange(0, 1) =~= seq![v@[0]@]);
            }
        }
        if i > 0 {
            push_str(&mut s, sep);
        }
        push_str(&mut s, v[i].as_str());
        proof {
            if i == 0 {
                assert(s@ =~= v@[0]@);
            }
        }
        i = i + 1;
    }
    proof {
        assert(names_of(v@).subrange(0, i as int) =~= names_of(v@));
    }
    s
}

/// A `---` section of tool output, left out when the output is blank.
pub open spec fn output_section(title: Seq<char>, text: Seq<char>) -> Seq<char> {
    if blank_text(text) {
        Seq::empty()
    } else {
        "\n--- "@ + title + " ---\n"@ + text
    }
}

/// The message of a driver error that is not a parse or analysis error.
pub open spec fn driver_message(e: DriverError) -> Seq<char> {
    match e {
        DriverError::NotAFile(p) => "not a file: "@ + p@,
        DriverError::NotFibFile(p) => "not a fib file: "@ + p@,
        DriverError::Io { path, message } => "failed to read "@ + path@ + ": "@ + message@,
        DriverError::ImportNotFound { module, searched } => "cannot read module '"@ + module@
            + "': no such file or directory"@ + if searched.len() > 0 {
            " (searched: "@ + joined_text(names_of(searched@), ", "@) + ")"@
        } else {
            Seq::empty()
        },
        DriverError::CircularImport { stack } => "circular import detected: "@ + joined_text(names_of(stack@), " -> "@),
        DriverError::ImportRead { module, path, message } => "cannot read module '"@ + module@ + "' ("@ + path@ + "): "@
            + message@,
        DriverError::Lower(m) => "lowering failed: "@ + m@,
        DriverError::Emit { path, reason } => "failed to write "@ + path@ + ": "@ + reason@,
        DriverError::Link { status, stdout, stderr } => "clang failed with status "@ + status@ + output_section(
            "stdout"@,
            stdout@,
        ) + output_section("stderr"@, stderr@),
        DriverError::CcNotFound { attempted } => "C compiler not found (tried: "@ + joined_text(names_of(attempted@), ", "@)
            + ")"@,
        DriverError::InvalidOptLevel(l) => "invalid opt level '"@ + l@ + "': expected one of 0,1,2,3,s,z"@,
        DriverError::LlvmUnavailable(w) => w@ + " requires the `llvm` cargo feature (rebuild with --features llvm)"@,
        DriverError::EmptyImportPath => "empty import path"@,
        _ => Seq::empty(),
    }
}

/// The text of a driver error, the way the command line reports it.
pub open spec fn driver_text(e: DriverError) -> Seq<char> {
    match e {
        DriverError::NotAFile(p) => "Not a file: "@ + path_debug(p@),
        DriverError::NotFibFile(p) => "Not a fib file: "@ + path_debug(p@),
        DriverError::Io { path, message } => "Failed to read "@ + path@ + ": "@ + message@,
        DriverError::Parse(pe) => parse_error_text(pe),
        DriverError::ImportNotFound { module, searched } => "cannot read module '"@ + module@
            + "': No such file or directory"@ + if searched.len() > 0 {
            " (searched: "@ + joined_text(names_of(searched@), ", "@) + ")"@
        } else {
            Seq::empty()
        },
        DriverError::CircularImport { stack } => "circular import detected: "@ + joined_text(names_of(stack@), " -> "@),
        DriverError::ImportRead { module, path, message } => "cannot read module '"@ + module@ + "' ("@ + path@ + "): "@
            + message@,
        DriverError::Analysis(ae) => "Analysis failed: "@ + analysis_error_text(ae),
        DriverError::ModuleAnalysis { module, source } => "Analysis failed in module '"@ + module@ + "': "@
            + analysis_error_text(source),
        DriverError::Lower(m) => "Lowering failed: "@ + m@,
        DriverError::Emit { path, reason } => "Failed to write "@ + path@ + ": "@ + reason@,
        DriverError::Link { status, stdout, stderr } => "clang failed with status "@ + status@ + output_section(
            "stdout"@,
            stdout@,
        ) + output_section("stderr"@, stderr@),
        DriverError::CcNotFound { attempted } => "C compiler not found (tried: "@ + joined_text(names_of(attempted@), ", "@)
            + ")"@,
        DriverError::InvalidOptLevel(l) => "Invalid opt level '"@ + l@ + "': expected one of 0,1,2,3,s,z"@,
        DriverError::LlvmUnavailable(w) => w@ + " requires the `llvm` cargo feature (rebuild with --features llvm)"@,
        DriverError::EmptyImportPath => "empty import path"@,
    }
}

fn push_section(s: &mut String, title: &str, text: &str)
    ensures
        final(s)@ == old(s)@ + output_section(title@, text@),
{
    if !is_blank(text) {
        push_str(s, "\n--- ");
        push_str(s, title);
        push_str(s, " ---\n");
        push_str(s, text);
        assert(s@ =~= old(s)@ + output_section(title@, text@));
    } else {
        assert(old(s)@ + output_section(title@, text@) =~= old(s)@);
    }
}

impl DriverError {
    /// The error as text, the way the command line reports it.
    pub fn describe(&self) -> (s: String)
        ensures
            s@ == driver_text(*self),
    {
        match self {
            DriverError::NotAFile(p) => {
                let d = path_debug_text(p.as_str());
                crate::text::concat("Not a file: ", d.as_str())
            },
            DriverError::NotFibFile(p) => {
                let d = path_debug_text(p.as_str());
                crate::text::concat("Not a fib file: ", d.as_str())
            },
            DriverError::Io { path, message } => {
                let mut m = str_to_string("Failed to read ");
                push_str(&mut m, path.as_str());
                push_str(&mut m, ": ");
                push_str(&mut m, message.as_str());
                m
            },
            DriverError::Parse(pe) => pe.describe(),
            DriverError::ImportNotFound { module, searched } => {
                let mut m = str_to_string("cannot read module '");
                push_str(&mut m, module.as_str());
                push_str(&mut m, "': No such file or directory");
                if searched.len() > 0 {
                    push_str(&mut m, " (searched: ");
                    push_str(&mut m, joined(searched, ", ").as_str());
                    push_str(&mut m, ")");
                }
                m
            },
            DriverError::CircularImport { stack } => crate::text::concat(
                "circular import detected: ",
                joined(stack, " -> ").as_str(),
            ),
            DriverError::ImportRead { module, path, message } => {
                let mut m = str_to_string("cannot read module '");
                push_str(&mut m, module.as_str());
                push_str(&mut m, "' (");
                push_str(&mut m, path.as_str());
                push_str(&mut m, "): ");
                push_str(&mut m, message.as_str());
                m
            },
            DriverError::Analysis(ae) => crate::text::concat("Analysis failed: ", ae.describe().as_str()),
            DriverError::ModuleAnalysis { module, source } => {
                let mut m = str_to_string("Analysis failed in module '");
                push_str(&mut m, module.as_str());
                push_str(&mut m, "': ");
                push_str(&mut m, source.describe().as_str());
                m
            },
            DriverError::Lower(msg) => crate::text::concat("Lowering failed: ", msg.as_str()),
            DriverError::Emit { path, reason } => {
                let mut m = str_to_string("Failed to write ");
                push_str(&mut m, path.as_str());
                push_str(&mut m, ": ");
                push_str(&mut m, reason.as_str());
                m
            },
            DriverError::Link { status, stdout, stderr } => {
                let mut m = str_to_string("clang failed with status ");
                push_str(&mut m, status.as_str());
                push_section(&mut m, "stdout", stdout.as_str());
                push_section(&mut m, "stderr", stderr.as_str());
                m
            },
            DriverError::CcNotFound { attempted } => {
                let mut m = str_to_string("C compiler not found (tried: ");
                push_str(&mut m, joined(attempted, ", ").as_str());
                push_str(&mut m, ")");
                m
            },
            DriverError::InvalidOptLevel(lvl) => {
                let mut m = str_to_string("Invalid opt level '");
                push_str(&mut m, lvl.as_str());
                push_str(&mut m, "': expected one of 0,1,2,3,s,z");
                m
            },
            DriverError::LlvmUnavailable(what) => crate::text::concat(
                what.as_str(),
                " requires the `llvm` cargo feature (rebuild with --features llvm)",
            ),
            DriverError::EmptyImportPath => str_to_string("empty import path"),
        }
    }

    /// The structured diagnostic for this error: parse and analysis errors
    /// keep their positions and hints, the others become a message under
    /// the kind of stage that failed.
    pub fn into_compiler_error(self) -> (c: CompilerError)
        ensures
            c.kind == driver_error_kind(self),
            self matches DriverError::Parse(pe) ==> c == (CompilerError {
                kind: ErrorKind::Parse,
                message: pe.message,
                span: Some(crate::diagnostics::Span { line: pe.line, column: pe.column }),
                hint: None,
                filename: Some(pe.filename),
                source_line: Some(pe.source_line),
            }),
            self matches DriverError::Analysis(ae) ==> c == (CompilerError {
                kind: ae.kind,
                message: ae.message,
                span: ae.span,
                hint: ae.hint,
                filename: None,
                source_line: None,
            }),
            self matches DriverError::ModuleAnalysis { module, source } ==> c.message == source.message && c.span == source.span
                && c.filename == Some(module),
            !(self is Parse || self is Analysis || self is ModuleAnalysis) ==> c.message@ == driver_message(self)
                && c.span is None && c.hint is None && c.filename is None && c.source_line is None,
    {
        match self {
            DriverError::Parse(pe) => CompilerError::from(pe),
            DriverError::Analysis(ae) => CompilerError::from(ae),
            DriverError::ModuleAnalysis { module, source } => {
                let c = CompilerError::from(source);
                CompilerError { filename: Some(module), ..c }
            },
            DriverError::NotAFile(p) => CompilerError::new(ErrorKind::Io, crate::text::concat("not a file: ", p.as_str())),
            DriverError::NotFibFile(p) => CompilerError::new(ErrorKind::Io, crate::text::concat("not a fib file: ", p.as_str())),
            DriverError::Io { path, message } => {
                let mut m = str_to_string("failed to read ");
                push_str(&mut m, path.as_str());
                push_str(&mut m, ": ");
                push_str(&mut m, message.as_str());
                CompilerError::new(ErrorKind::Io, m)
            },
            DriverError::ImportNotFound { module, searched } => {
                let mut m = str_to_string("cannot read module '");
                push_str(&mut m, module.as_str());
                push_str(&mut m, "': no such file or directory");
                if searched.len() > 0 {
                    push_str(&mut m, " (searched: ");
                    push_str(&mut m, joined(&searched, ", ").as_str());
                    push_str(&mut m, ")");
                }
                CompilerError::new(ErrorKind::Name, m)
            },
            DriverError::CircularImport { stack } => {
                let m = crate::text::concat("circular import detected: ", joined(&stack, " -> ").as_str());
                CompilerError::new(ErrorKind::Name, m)
            },
            DriverError::ImportRead { module, path, message } => {
                let mut m = str_to_string("cannot read module '");
                push_str(&mut m, module.as_str());
                push_str(&mut m, "' (");
                push_str(&mut m, path.as_str());
                push_str(&mut m, "): ");
                push_str(&mut m, message.as_str());
                CompilerError::new(ErrorKind::Io, m)
            },
            DriverError::Lower(msg) => CompilerError::new(ErrorKind::Backend, crate::text::concat("lowering failed: ", msg.as_str())),
            DriverError::Emit { path, reason } => {
                let mut m = str_to_string("failed to write ");
                push_str(&mut m, path.as_str());
                push_str(&mut m, ": ");
                push_str(&mut m, reason.as_str());
                CompilerError::new(ErrorKind::Io, m)
            },
            DriverError::Link { status, stdout, stderr } => {
                let mut m = str_to_string("clang failed with status ");
                push_str(&mut m, status.as_str());
                push_section(&mut m, "stdout", stdout.as_str());
                push_section(&mut m, "stderr", stderr.as_str());
                CompilerError::new(ErrorKind::Toolchain, m)
            },
            DriverError::CcNotFound { attempted } => {
                let mut m = str_to_string("C compiler not found (tried: ");
                push_str(&mut m, joined(&attempted, ", ").as_str());
                push_str(&mut m, ")");
                CompilerError::new(ErrorKind::Toolchain, m)
            },
            DriverError::InvalidOptLevel(lvl) => {
                let mut m = str_to_string("invalid opt level '");
                push_str(&mut m, lvl.as_str());
                push_str(&mut m, "': expected one of 0,1,2,3,s,z");
                CompilerError::new(ErrorKind::Toolchain, m)
            },
            DriverError::LlvmUnavailable(what) => {
                let mut m = what;
                push_str(&mut m, " requires the `llvm` cargo feature (rebuild with --features llvm)");
                CompilerError::new(ErrorKind::Toolchain, m)
            },
            DriverError::EmptyImportPath => CompilerError::new(ErrorKind::Io, str_to_string("empty import path")),
        }
    }
}

// ---------------------------------------------------------------------------
// Frontend stages
// ---------------------------------------------------------------------------

/// Check the entry path: it must have the `.fib` extension, and, unless the
/// source is given in memory, name an existing file (`is_file`, found by the
/// caller).
pub fn validate_path(path: &str, has_source_override: bool, is_file: bool) -> (r: Result<(), DriverError>)
    ensures
        path_extension(path@) != Some(seq!['f', 'i', 'b']) ==> (r matches Err(DriverError::NotFibFile(p)) && p@ == path@),
        path_extension(path@) == Some(seq!['f', 'i', 'b']) && !has_source_override && !is_file ==> (r matches Err(
            DriverError::NotAFile(p),
        ) && p@ == path@),
        path_extension(path@) == Some(seq!['f', 'i', 'b']) && (has_source_override || is_file) ==> r is Ok,
{
    let fib = str_to_string("fib");
    proof { reveal_strlit("fib"); assert(fib@ =~= seq!['f', 'i', 'b']); }
    let ok = match crate::driver::paths::extension_of(path) {
        Some(e) => crate::frontend::typed_ast::str_eq(e.as_str(), fib.as_str()),
        None => false,
    };
    if !ok {
        return Err(DriverError::NotFibFile(str_to_string(path)));
    }
    if !has_source_override && !is_file {
        return Err(DriverError::NotAFile(str_to_string(path)));
    }
    Ok(())
}

/// Lex a source text.
pub fn lex_source(source: &str) -> (toks: Vec<Token>)
    ensures
        toks.len() <= source@.len(),
        toks.len() <= isize::MAX,
        forall|i: int| 0 <= i < toks.len() ==> crate::frontend::lexer::token_wf(#[trigger] toks@[i]),
        crate::frontend::lexer::in_source_order(toks@),
        crate::frontend::lexer::tokens_view(toks@) == crate::frontend::lexer::lexed(source@),
{
    lex(source)
}

/// Parse the tokens of `source`, read from `file`.
pub fn parse_source(tokens: Vec<Token>, file: &str, source: &str) -> (r: Result<Ast, DriverError>)
    requires
        tokens.len() <= isize::MAX,
    ensures
        r matches Err(e) ==> e is Parse,
        r matches Ok(a) ==> declarations_introduced(without_comments(tokens@), a.declarations@),
        without_comments(tokens@).len() == 0 ==> (r matches Ok(a) && a.declarations.len() == 0),
        without_comments(tokens@).len() > 0 && !starts_declaration(without_comments(tokens@)[0].kind) ==> r is Err,
        simple_reach(without_comments(tokens@), 0, without_comments(tokens@).len() as int) ==> r is Ok,
        r matches Ok(a) ==> !has_empty_import(a.declarations@),
        forall|q: int| simple_reach(without_comments(tokens@), 0, q) && 0 <= q < without_comments(tokens@).len()
            && !starts_declaration(#[trigger] without_comments(tokens@)[q].kind) && !(without_comments(tokens@)[q].kind is Error)
            ==> (r matches Err(DriverError::Parse(e)) && e.message@ == "expected 'import', 'fn', 'extern' or 'type'"@
                && e.line == without_comments(tokens@)[q].line && e.column == without_comments(tokens@)[q].column
                && e.source_line@ == line_text(source@, without_comments(tokens@)[q].line)),
{
    let mut parser = Parser::new(tokens, file, str_to_string(source));
    match parser.parse() {
        Ok(ast) => Ok(ast),
        Err(e) => Err(DriverError::Parse(e)),
    }
}

/// Analyze the entry program against its resolved imports.
pub fn analyze_entry(ast: Ast, resolved: &Vec<(Vec<String>, TypedModule)>) -> (r: Result<TypedProgram, DriverError>)
    ensures
        r matches Err(e) ==> e is Analysis,
        r matches Ok(p) ==> analyzed(ast.declarations@, p),
        imports_unknown(ast.declarations@, resolved@) ==> r is Err,
        (forall|i: int| 0 <= i < ast.declarations.len() ==> plain_decl(#[trigger] ast.declarations@[i])) ==> (r matches Ok(p)
            && p.declarations.len() == emitted(ast.declarations@).len()),
{
    match analyze(ast, resolved) {
        Ok(p) => Ok(p),
        Err(e) => Err(DriverError::Analysis(e)),
    }
}

// ---------------------------------------------------------------------------
// Declarations of a program and its imports
// ---------------------------------------------------------------------------

/// The identity of a declaration: its kind and name, e.g. `fn:main`.
pub open spec fn key_of(d: TypedDecl) -> Seq<char> {
    match d {
        TypedDecl::Function(f) => seq!['f', 'n', ':'] + f.name@,
        TypedDecl::Type(t) => seq!['t', 'y', 'p', 'e', ':'] + t.name@,
        TypedDecl::Const(c) => seq!['c', 'o', 'n', 's', 't', ':'] + c.name@,
    }
}

pub fn decl_key(d: &TypedDecl) -> (k: String)
    ensures
        k@ == key_of(*d),
{
    let (prefix, name) = match d {
        TypedDecl::Function(f) => ("fn:", f.name.value.as_str()),
        TypedDecl::Type(t) => ("type:", t.name.value.as_str()),
        TypedDecl::Const(c) => ("const:", c.name.value.as_str()),
    };
    proof {
        reveal_strlit("fn:");
        reveal_strlit("type:");
        reveal_strlit("const:");
    }
    crate::text::concat(prefix, name)
}

/// A declaration survives a merge when no later one has the same identity.
pub open spec fn last_of_its_key(all: Seq<TypedDecl>, i: int) -> bool {
    forall|j: int| i < j < all.len() ==> key_of(#[trigger] all[j]) != key_of(all[i])
}

/// The surviving declarations, in order.
pub open spec fn survivors(all: Seq<TypedDecl>, upto: int) -> Seq<TypedDecl>
    decreases upto,
{
    if upto <= 0 {
        Seq::empty()
    } else if last_of_its_key(all, upto - 1) {
        survivors(all, upto - 1).push(all[upto - 1])
    } else {
        survivors(all, upto - 1)
    }
}

/// Merge imported and local declarations: of declarations with the same
/// identity only the last survives, so a diamond import is emitted once and
/// a local declaration shadows an imported one.
pub fn dedupe_declarations(imported: Vec<TypedDecl>, local: Vec<TypedDecl>) -> (r: Vec<TypedDecl>)
    ensures
        r@ == survivors(imported@ + local@, (imported@ + local@).len() as int),
{
    let ghost all = imported@ + local@;
    let mut pool = imported;
    let mut local = local;
    pool.append(&mut local);
    proof { assert(pool@ =~= all); }
    let n = pool.len();
    let mut keys: Vec<String> = Vec::new();
    let mut k: usize = 0;
    while k < n
        invariant
            pool@ == all,
            n == all.len(),
            0 <= k <= n,
            keys.len() == k,
            forall|j: int| 0 <= j < k ==> #[trigger] keys@[j]@ == key_of(all[j]),
        decreases n - k,
    {
        keys.push(decl_key(&pool[k]));
        k = k + 1;
    }
    let mut keep: Vec<bool> = Vec::new();
    let mut i: usize = 0;
    while i < n
        invariant
            pool@ == all,
            n == all.len(),
            keys.len() == n,
            forall|j: int| 0 <= j < n ==> #[trigger] keys@[j]@ == key_of(all[j]),
            0 <= i <= n,
            keep.len() == i,
            forall|j: int| 0 <= j < i ==> #[trigger] keep@[j] == last_of_its_key(all, j),
        decreases n - i,
    {
        let mut last = true;
        let mut j = i + 1;
        while j < n
            invariant
                i < n,
                n == all.len(),
                keys.len() == n,
                forall|q: int| 0 <= q < n ==> #[trigger] keys@[q]@ == key_of(all[q]),
                i + 1 <= j <= n,
                last == (forall|q: int| i < q < j ==> key_of(#[trigger] all[q]) != key_of(all[i as int])),
            decreases n - j,
        {
            if crate::frontend::typed_ast::str_eq(keys[j].as_str(), keys[i].as_str()) {
                last = false;
            }
            j = j + 1;
        }
        keep.push(last);
        i = i + 1;
    }
    let mut out: Vec<TypedDecl> = Vec::new();
    let mut rest = pool;
    let mut q: usize = 0;
    proof { assert(rest@ =~= all.subrange(0, n as int)); }
    while q < n
        invariant
            n == all.len(),
            keep.len() == n,
            forall|j: int| 0 <= j < n ==> #[trigger] keep@[j] == last_of_its_key(all, j),
            0 <= q <= n,
            rest@ == all.subrange(q as int, n as int),
            out@ == survivors(all, q as int),
        decreases n - q,
    {
        let d = rest.remove(0);
        proof {
            assert(d == all[q as int]);
            assert(rest@ =~= all.subrange(q + 1, n as int));
        }
        if keep[q] {
            out.push(d);
        }
        q = q + 1;
    }
    out
}

/// Of the declarations a merge keeps, no two share an identity.
pub proof fn lemma_survivors_unique(all: Seq<TypedDecl>)
    ensures
        forall|a: int, b: int| 0 <= a < b < survivors(all, all.len() as int).len() ==> key_of(
            #[trigger] survivors(all, all.len() as int)[a],
        ) != key_of(#[trigger] survivors(all, all.len() as int)[b]),
{
    let idx = lemma_survivor_indices(all, all.len() as int);
    let sv = survivors(all, all.len() as int);
    assert forall|a: int, b: int| 0 <= a < b < sv.len() implies key_of(#[trigger] sv[a]) != key_of(#[trigger] sv[b]) by {
        assert(idx[a] < idx[b]);
        assert(last_of_its_key(all, idx[a]));
        assert(key_of(all[idx[b]]) != key_of(all[idx[a]]));
    }
}

/// The positions in `all` the surviving declarations come from.
proof fn lemma_survivor_indices(all: Seq<TypedDecl>, upto: int) -> (idx: Seq<int>)
    requires
        0 <= upto <= all.len(),
    ensures
        idx.len() == survivors(all, upto).len(),
        forall|a: int| 0 <= a < idx.len() ==> 0 <= #[trigger] idx[a] < upto && last_of_its_key(all, idx[a])
            && survivors(all, upto)[a] == all[idx[a]],
        forall|a: int, b: int| 0 <= a < b < idx.len() ==> #[trigger] idx[a] < #[trigger] idx[b],
    decreases upto,
{
    if upto == 0 {
        Seq::empty()
    } else {
        let prev = lemma_survivor_indices(all, upto - 1);
        if last_of_its_key(all, upto - 1) {
            let idx = prev.push(upto - 1);
            assert forall|a: int| 0 <= a < idx.len() implies 0 <= #[trigger] idx[a] < upto && last_of_its_key(all, idx[a])
                && survivors(all, upto)[a] == all[idx[a]] by {
                if a < prev.len() {
                    assert(idx[a] == prev[a]);
                }
            }
            idx
        } else {
            prev
        }
    }
}

// ---------------------------------------------------------------------------
// Output paths
// ---------------------------------------------------------------------------

/// `out/<stem>`.
pub open spec fn default_binary(input: Seq<char>) -> Seq<char> {
    seq!['o', 'u', 't', '/'] + stem_or_default(input)
}

/// `out/<stem>.ll`.
pub open spec fn default_llvm(input: Seq<char>) -> Seq<char> {
    seq!['o', 'u', 't', '/'] + stem_or_default(input) + seq!['.', 'l', 'l']
}

/// Default binary output: `out/<stem>`.
pub fn default_binary_path(input: &str) -> (r: String)
    ensures
        r@ == default_binary(input@),
{
    let mut r = str_to_string("out/");
    push_str(&mut r, file_stem_or_default(input).as_str());
    proof { reveal_strlit("out/"); assert(r@ =~= default_binary(input@)); }
    r
}

/// Default LLVM IR output: `out/<stem>.ll`.
pub fn default_llvm_path(input: &str) -> (r: String)
    ensures
        r@ == default_llvm(input@),
{
    let mut r = str_to_string("out/");
    push_str(&mut r, file_stem_or_default(input).as_str());
    push_str(&mut r, ".ll");
    proof { reveal_strlit("out/"); reveal_strlit(".ll"); assert(r@ =~= default_llvm(input@)); }
    r
}

/// The binary path: `--output`, else `out/<stem>`.
pub fn binary_output_path(opts: &CompilationOptions, input: &str) -> (r: String)
    ensures
        r@ == match opts.output {
            Some(o) => o@,
            None => default_binary(input@),
        },
{
    match &opts.output {
        Some(o) => o.clone(),
        None => default_binary_path(input),
    }
}

/// Where the LLVM IR goes: for `--emit=llvm` `--llvm-out`, else `--output`,
/// else `out/<stem>.ll`; for `--emit=bin` `--llvm-out`, else (with
/// `--emit-llvm`) the binary path with the `.ll` extension, else nowhere (a
/// temporary file); for the other stages nowhere.
pub open spec fn llvm_path_for(opts: CompilationOptions, emit: EmitKind, binary: Seq<char>, input: Seq<char>) -> Option<Seq<char>> {
    match emit {
        EmitKind::Llvm => Some(
            match opts.llvm_out {
                Some(p) => p@,
                None => match opts.output {
                    Some(o) => o@,
                    None => default_llvm(input),
                },
            },
        ),
        EmitKind::Bin => match opts.llvm_out {
            Some(p) => Some(p@),
            None => if opts.emit_llvm {
                Some(with_extension(binary, seq!['l', 'l']))
            } else {
                None
            },
        },
        _ => None,
    }
}

pub fn llvm_output_path(opts: &CompilationOptions, emit: EmitKind, binary_path: &str, input: &str) -> (r: Option<String>)
    ensures
        match llvm_path_for(*opts, emit, binary_path@, input@) {
            Some(p) => r matches Some(s) && s@ == p,
            None => r is None,
        },
{
    match emit {
        EmitKind::Llvm => match &opts.llvm_out {
            Some(p) => Some(p.clone()),
            None => match &opts.output {
                Some(o) => Some(o.clone()),
                None => Some(default_llvm_path(input)),
            },
        },
        EmitKind::Bin => match &opts.llvm_out {
            Some(p) => Some(p.clone()),
            None => {
                if opts.emit_llvm {
                    proof { reveal_strlit("ll"); assert("ll"@ =~= seq!['l', 'l']); }
                    Some(set_extension(binary_path, "ll"))
                } else {
                    None
                }
            },
        },
        _ => None,
    }
}

/// The optimization levels the C compiler accepts.
pub open spec fn opt_level_ok(level: Seq<char>) -> bool {
    level == seq!['0'] || level == seq!['1'] || level == seq!['2'] || level == seq!['3'] || level == seq!['s']
        || level == seq!['z']
}

/// `-O<level>` for an accepted level.
pub fn validate_opt_level(level: &str) -> (r: Result<String, DriverError>)
    ensures
        opt_level_ok(level@) ==> (r matches Ok(f) && f@ == seq!['-', 'O'] + level@),
        !opt_level_ok(level@) ==> (r matches Err(DriverError::InvalidOptLevel(l)) && l@ == level@),
{
    let ok = level.unicode_len() == 1 && {
        let c = level.get_char(0);
        c == '0' || c == '1' || c == '2' || c == '3' || c == 's' || c == 'z'
    };
    proof {
        if level@.len() == 1 {
            assert(level@ =~= seq![level@[0]]);
        }
    }
    if ok {
        let r = crate::text::concat("-O", level);
        proof { reveal_strlit("-O"); }
        Ok(r)
    } else {
        Err(DriverError::InvalidOptLevel(str_to_string(level)))
    }
}

// ---------------------------------------------------------------------------
// The C compiler used for linking
// ---------------------------------------------------------------------------

/// `s` without its leading white space.
pub open spec fn skip_white(s: Seq<char>) -> Seq<char>
    decreases s.len(),
{
    if s.len() > 0 && white_space(s[0]) {
        skip_white(s.drop_first())
    } else {
        s
    }
}

/// The characters of `s` before its first white space.
pub open spec fn leading_word(s: Seq<char>) -> Seq<char>
    decreases s.len(),
{
    if s.len() == 0 || white_space(s[0]) {
        Seq::empty()
    } else {
        seq![s[0]] + leading_word(s.drop_first())
    }
}

/// The first white-space separated word of `s`.
pub open spec fn first_word(s: Seq<char>) -> Seq<char> {
    leading_word(skip_white(s))
}

/// The C compilers to try, in order: the explicit `--cc`; else the program
/// named by `$CC` when it is set and not blank (its first word; flags belong
/// elsewhere); else `clang-17`, then `clang`.
pub open spec fn cc_list(explicit: Option<Seq<char>>, env_cc: Option<Seq<char>>) -> Seq<Seq<char>> {
    match explicit {
        Some(cc) => seq![cc],
        None => match env_cc {
            Some(e) => if !blank_text(e) {
                seq![first_word(e)]
            } else {
                seq!["clang-17"@, "clang"@]
            },
            None => seq!["clang-17"@, "clang"@],
        },
    }
}

/// The text an optional string slice holds.
pub open spec fn opt_text(o: Option<&str>) -> Option<Seq<char>> {
    match o {
        Some(s) => Some(s@),
        None => None,
    }
}

proof fn lemma_skip_white(s: Seq<char>, i: int)
    requires
        0 <= i <= s.len(),
        forall|j: int| 0 <= j < i ==> white_space(#[trigger] s[j]),
        i == s.len() || !white_space(s[i]),
    ensures
        skip_white(s) == s.subrange(i, s.len() as int),
    decreases i,
{
    if i == 0 {
        assert(s.subrange(0, s.len() as int) =~= s);
    } else {
        let t = s.drop_first();
        assert forall|j: int| 0 <= j < i - 1 implies white_space(#[trigger] t[j]) by {
            assert(t[j] == s[j + 1]);
        }
        lemma_skip_white(t, i - 1);
        assert(t.subrange(i - 1, t.len() as int) =~= s.subrange(i, s.len() as int));
    }
}

proof fn lemma_leading_word(s: Seq<char>, k: int)
    requires
        0 <= k <= s.len(),
        forall|j: int| 0 <= j < k ==> !white_space(#[trigger] s[j]),
        k == s.len() || white_space(s[k]),
    ensures
        leading_word(s) == s.subrange(0, k),
    decreases k,
{
    if k == 0 {
        assert(s.subrange(0, 0) =~= Seq::<char>::empty());
    } else {
        let t = s.drop_first();
        assert forall|j: int| 0 <= j < k - 1 implies !white_space(#[trigger] t[j]) by {
            assert(t[j] == s[j + 1]);
        }
        lemma_leading_word(t, k - 1);
        assert(seq![s[0]] + t.subrange(0, k - 1) =~= s.subrange(0, k));
    }
}

/// The first white-space separated word of `s`.
fn first_word_of(s: &str) -> (r: String)
    ensures
        r@ == first_word(s@),
{
    let v = crate::text::str_to_chars(s);
    let n = v.len();
    let mut i: usize = 0;
    while i < n && crate::text::is_white_space(v[i])
        invariant
            n == v.len(),
            v@ == s@,
            0 <= i <= n,
            forall|j: int| 0 <= j < i ==> white_space(#[trigger] v@[j]),
        decreases n - i,
    {
        i = i + 1;
    }
    proof {
        lemma_skip_white(v@, i as int);
    }
    let mut k: usize = i;
    while k < n && !crate::text::is_white_space(v[k])
        invariant
            n == v.len(),
            v@ == s@,
            i <= k <= n,
            forall|j: int| i <= j < k ==> !white_space(#[trigger] v@[j]),
        decreases n - k,
    {
        k = k + 1;
    }
    proof {
        let t = v@.subrange(i as int, n as int);
        assert forall|j: int| 0 <= j < k - i implies !white_space(#[trigger] t[j]) by {
            assert(t[j] == v@[i + j]);
        }
        if k < n {
            assert(t[k - i] == v@[k as int]);
        }
        lemma_leading_word(t, k - i);
        assert(t.subrange(0, k - i) =~= v@.subrange(i as int, k as int));
    }
    crate::text::chars_to_string(&v, i, k)
}

/// Candidate C compilers in priority order: `--cc`, then `$CC` (given here as
/// read from the environment), then `clang-17` and `clang`.
pub fn cc_candidates(explicit: Option<&str>, env_cc: Option<&str>) -> (r: Vec<String>)
    ensures
        names_of(r@) == cc_list(opt_text(explicit), opt_text(env_cc)),
{
    let mut out: Vec<String> = Vec::new();
    match explicit {
        Some(cc) => {
            out.push(str_to_string(cc));
            proof {
                assert(names_of(out@) =~= cc_list(opt_text(explicit), opt_text(env_cc)));
            }
            return out;
        },
        None => {},
    }
    match env_cc {
        Some(e) => {
            if !is_blank(e) {
                out.push(first_word_of(e));
                proof {
                    assert(names_of(out@) =~= cc_list(opt_text(explicit), opt_text(env_cc)));
                }
                return out;
            }
        },
        None => {},
    }
    out.push(str_to_string("clang-17"));
    out.push(str_to_string("clang"));
    proof {
        assert(names_of(out@) =~= cc_list(opt_text(explicit), opt_text(env_cc)));
    }
    out
}

/// Code generation needs the LLVM backend, which this build does not have.
pub fn lower_to_llvm_ir(program: TypedProgram, module_name: &str) -> (r: Result<String, DriverError>)
    ensures
        r matches Err(DriverError::LlvmUnavailable(w)) && w@ == seq!['c', 'o', 'd', 'e', 'g', 'e', 'n'],
{
    let w = str_to_string("codegen");
    proof { reveal_strlit("codegen"); assert(w@ =~= seq!['c', 'o', 'd', 'e', 'g', 'e', 'n']); }
    Err(DriverError::LlvmUnavailable(w))
}


/// The import paths an AST declares, in order.
pub open spec fn import_paths(decls: Seq<DeclarationNode>) -> Seq<Seq<Seq<char>>>
    decreases decls.len(),
{
    if decls.len() == 0 {
        Seq::empty()
    } else {
        match decls.last() {
            DeclarationNode::ImportDeclaration(i) => import_paths(decls.drop_last()).push(
                Seq::new(i.path@.len(), |k: int| i.path@[k]@),
            ),
            _ => import_paths(decls.drop_last()),
        }
    }
}

/// An import with an empty path.
pub open spec fn empty_import(d: DeclarationNode) -> bool {
    d matches DeclarationNode::ImportDeclaration(imp) && imp.path.len() == 0
}

/// Some import of the AST has an empty path.
pub open spec fn has_empty_import(decls: Seq<DeclarationNode>) -> bool {
    exists|i: int| 0 <= i < decls.len() && empty_import(#[trigger] decls[i])
}

/// The import paths an AST declares (`import std::io` gives `["std", "io"]`).
pub fn entry_imports(ast: &Ast) -> (r: Result<Vec<Vec<String>>, DriverError>)
    ensures
        has_empty_import(ast.declarations@) ==> r matches Err(DriverError::EmptyImportPath),
        !has_empty_import(ast.declarations@) ==> (r matches Ok(v) && Seq::new(v@.len(), |k: int| crate::driver::paths::names_of(v@[k]@))
            == import_paths(ast.declarations@)),
        r matches Err(e) ==> e is EmptyImportPath,
{
    let mut out: Vec<Vec<String>> = Vec::new();
    let mut i: usize = 0;
    while i < ast.declarations.len()
        invariant
            0 <= i <= ast.declarations.len(),
            Seq::new(out@.len(), |k: int| crate::driver::paths::names_of(out@[k]@)) == import_paths(ast.declarations@.subrange(0, i as int)),
            !has_empty_import(ast.declarations@.subrange(0, i as int)),
        decreases ast.declarations.len() - i,
    {
        let ghost before = out@;
        proof {
            assert(ast.declarations@.subrange(0, i + 1).drop_last() =~= ast.declarations@.subrange(0, i as int));
        }
        match &ast.declarations[i] {
            DeclarationNode::ImportDeclaration(imp) => {
                if imp.path.len() == 0 {
                    proof {
                        assert(empty_import(ast.declarations@[i as int]));
                    }
                    return Err(DriverError::EmptyImportPath);
                }
                let mut names: Vec<String> = Vec::new();
                let mut k: usize = 0;
                while k < imp.path.len()
                    invariant
                        0 <= k <= imp.path.len(),
                        names.len() == k,
                        forall|q: int| 0 <= q < k ==> #[trigger] names@[q]@ == imp.path@[q]@,
                    decreases imp.path.len() - k,
                {
                    names.push(imp.path[k].value.clone());
                    k = k + 1;
                }
                out.push(names);
                proof {
                    assert(crate::driver::paths::names_of(names@) =~= Seq::new(imp.path@.len(), |q: int| imp.path@[q]@));
                    assert(Seq::new(out@.len(), |q: int| crate::driver::paths::names_of(out@[q]@)) =~= Seq::new(
                        before.len(),
                        |q: int| crate::driver::paths::names_of(before[q]@),
                    ).push(crate::driver::paths::names_of(names@)));
                }
            },
            _ => {},
        }
        proof {
            let s2 = ast.declarations@.subrange(0, i + 1);
            assert forall|j: int| 0 <= j < s2.len() implies !empty_import(#[trigger] s2[j]) by {
                if j < i {
                    assert(s2[j] == ast.declarations@.subrange(0, i as int)[j]);
                }
            }
        }
        i = i + 1;
    }
    proof {
        assert(ast.declarations@.subrange(0, ast.declarations.len() as int) =~= ast.declarations@);
    }
    Ok(out)
}

// ---------------------------------------------------------------------------
// Running the frontend
// ---------------------------------------------------------------------------

/// What the frontend produced: the tokens, syntax tree and typed program of
/// the entry file, the modules it imports, its text and its name.
#[derive(Debug)]
pub struct FrontendResponse {
    pub tokens: Vec<Token>,
    pub ast: Ast,
    pub typed_program: TypedProgram,
    pub resolved_modules: Vec<(Vec<String>, TypedModule)>,
    pub source: String,
    pub filename: String,
}

/// What a compilation produced.
#[derive(Debug)]
pub enum CompileOutput {
    /// `--emit=lex|parse|typed` or `--check`: no files written.
    Frontend { emit: EmitKind, frontend: Box<FrontendResponse> },
    /// `--emit=llvm`: the `.ll` file written.
    Llvm { path: String },
    /// `--emit=bin`: the binary, and the `.ll` file if it was kept.
    Binary { binary: String, llvm_ir: Option<String> },
}

/// The directory imports are first searched in: the entry file's directory,
/// or `.` when the path names none.
pub open spec fn source_root_of(p: Seq<char>) -> Seq<char> {
    let t = crate::driver::paths::trimmed(p);
    let d = crate::driver::paths::rfind(t, '/');
    if d > 0 {
        t.subrange(0, d)
    } else if d == 0 {
        seq!['/']
    } else {
        seq!['.']
    }
}

pub fn source_root(project_path: &str) -> (r: String)
    ensures
        r@ == source_root_of(project_path@),
{
    let all = crate::text::str_to_chars(project_path);
    let k = crate::driver::paths::trimmed_len(&all);
    let v = crate::driver::paths::prefix_chars(&all, k);
    let d = crate::driver::paths::rfind_exec(&v, '/');
    proof { crate::driver::paths::lemma_rfind(v@, '/'); }
    if d > 0 {
        crate::text::chars_to_string(&v, 0, d as usize)
    } else if d == 0 {
        let r = str_to_string("/");
        proof { reveal_strlit("/"); assert(r@ =~= seq!['/']); }
        r
    } else {
        let r = str_to_string(".");
        proof { reveal_strlit("."); assert(r@ =~= seq!['.']); }
        r
    }
}

/// The frontend of one compilation, run as a dialogue: it asks for the files
/// its imports may live in, one at a time, and is told what reading each gave.
pub struct FrontendRun {
    source: String,
    filename: String,
    tokens: Vec<Token>,
    ast: Ast,
    resolver: crate::driver::imports::ImportResolver,
}

impl FrontendRun {
    pub closed spec fn wf(&self) -> bool {
        self.resolver.wf()
    }

    /// Every import reached has been resolved.
    pub closed spec fn done(&self) -> bool {
        self.resolver.done()
    }

    /// The entry file's text, its name, its tokens and its syntax tree.
    pub closed spec fn entry(&self) -> (String, String, Vec<Token>, Ast) {
        (self.source, self.filename, self.tokens, self.ast)
    }

    /// The file asked for and not yet reported on.
    pub closed spec fn requested(&self) -> Option<Seq<char>> {
        self.resolver.requested()
    }

    /// The candidate file to be asked for if the requested one cannot be read.
    pub closed spec fn fallback(&self) -> Option<Seq<char>> {
        self.resolver.fallback()
    }

    /// The modules resolved so far, by import path.
    pub closed spec fn resolved(&self) -> Seq<(Vec<String>, TypedModule)> {
        self.resolver.resolved()
    }

    /// No file is awaited and no imported module is being resolved.
    pub closed spec fn idle(&self) -> bool {
        !self.resolver.awaiting_file() && self.resolver.modules_open() == 0
    }

    /// The imports of the entry file still to be taken up.
    pub closed spec fn pending_imports(&self) -> Seq<Seq<Seq<char>>> {
        self.resolver.to_take_up()
    }

    /// The files an import path is looked up in, in order.
    pub closed spec fn candidate_files(&self, key: Seq<Seq<char>>) -> Seq<Seq<char>> {
        candidates(key, self.resolver.search_roots())
    }

    /// A module is resolved under `key`.
    pub closed spec fn has(&self, key: Seq<Seq<char>>) -> bool {
        self.resolver.has(key)
    }

    /// How many imported modules are being read.
    pub closed spec fn modules_open(&self) -> nat {
        self.resolver.modules_open()
    }

    /// A module read from the file `canonical` is being resolved.
    pub closed spec fn reading(&self, canonical: Seq<char>) -> bool {
        self.resolver.reading(canonical)
    }

    /// The file `canonical` has been read before.
    pub closed spec fn seen_file(&self, canonical: Seq<char>) -> bool {
        self.resolver.seen_file(canonical)
    }

    /// The pending import at `k` is the first one not yet resolved.
    pub open spec fn first_unresolved(&self, k: int) -> bool {
        &&& 0 <= k < self.pending_imports().len()
        &&& !self.has(self.pending_imports()[k])
        &&& forall|j: int| 0 <= j < k ==> self.has(#[trigger] self.pending_imports()[j])
    }

    /// Lex and parse the entry source, and set up the resolution of its
    /// imports under the entry file's directory and the include paths.
    pub fn start(opts: &CompilationOptions, source: String) -> (r: Result<FrontendRun, DriverError>)
        ensures
            r matches Ok(run) ==> run.wf() && run.entry().0 == source && run.entry().1@ == opts.project_path@
                && crate::frontend::lexer::tokens_view(run.entry().2@) == crate::frontend::lexer::lexed(source@)
                && run.resolved().len() == 0 && run.requested() is None && run.idle()
                && run.pending_imports() == import_paths(run.entry().3.declarations@),
            r matches Err(e) ==> e is Parse || e is EmptyImportPath,
            (forall|toks: Seq<Token>| #[trigger] crate::frontend::lexer::tokens_view(toks) == crate::frontend::lexer::lexed(source@)
                ==> simple_reach(without_comments(toks), 0, without_comments(toks).len() as int)) ==> r is Ok,
    {
        let tokens = lex(source.as_str());
        let ast = parse_source(tokens.clone(), opts.project_path.as_str(), source.as_str())?;
        let roots = opts.search_roots(source_root(opts.project_path.as_str()).as_str());
        let resolver = crate::driver::imports::ImportResolver::new(&ast, roots)?;
        Ok(FrontendRun { source, filename: opts.project_path.clone(), tokens, ast, resolver })
    }

    /// The file to read next, or `None` once every import is resolved.
    pub fn next_file(&mut self) -> (r: Result<Option<String>, DriverError>)
        requires
            old(self).wf(),
        ensures
            final(self).wf(),
            r matches Ok(None) ==> final(self).done(),
            r matches Ok(Some(p)) ==> final(self).requested() == Some(p@),
            old(self).requested() is Some ==> (r matches Ok(Some(p)) && Some(p@) == old(self).requested()
                && *final(self) == *old(self)),
            still_resolved(old(self).resolved(), final(self).resolved()),
            r matches Err(e) ==> e is CircularImport || e is ImportNotFound || e is ModuleAnalysis,
            old(self).idle() ==> forall|k: int| #[trigger] old(self).first_unresolved(k)
                ==> (if old(self).candidate_files(old(self).pending_imports()[k]).len() > 0 {
                    r matches Ok(Some(p)) && p@ == old(self).candidate_files(old(self).pending_imports()[k])[0]
                } else {
                    r matches Err(e) && e is ImportNotFound
                }),
            old(self).idle() && (forall|j: int| 0 <= j < old(self).pending_imports().len()
                ==> old(self).has(#[trigger] old(self).pending_imports()[j])) ==> r matches Ok(None),
    {
        proof {
            assert forall|k: int| #[trigger] self.first_unresolved(k) implies self.resolver.first_unresolved(k) by {
                assert forall|j: int| 0 <= j < k implies self.resolver.has(#[trigger] self.resolver.to_take_up()[j]) by {
                    assert(self.has(self.pending_imports()[j]));
                }
            }
        }
        self.resolver.request()
    }

    /// Report what reading the requested file gave.
    pub fn file_read(&mut self, event: crate::driver::imports::FileEvent) -> (r: Result<(), DriverError>)
        requires
            old(self).wf(),
        ensures
            final(self).wf(),
            still_resolved(old(self).resolved(), final(self).resolved()),
            old(self).requested() is None ==> r is Ok && *final(self) == *old(self),
            old(self).requested() is Some && !(event is Read) ==> match old(self).fallback() {
                Some(p) => r is Ok && final(self).requested() == Some(p),
                None => (r matches Err(e) && (e is ImportNotFound || e is ImportRead)),
            },
            r is Ok && old(self).requested() is Some && event is Read ==> final(self).requested() is None,
            old(self).requested() is Some ==> (event matches crate::driver::imports::FileEvent::Read { content, canonical }
                ==> (!old(self).seen_file(canonical@) && old(self).reading(canonical@) ==> (r matches Err(e) && e is CircularImport))),
            old(self).requested() is Some ==> (event matches crate::driver::imports::FileEvent::Read { content, canonical }
                ==> (!old(self).seen_file(canonical@) && !old(self).reading(canonical@) && (forall|toks: Seq<Token>|
                #[trigger] crate::frontend::lexer::tokens_view(toks) == crate::frontend::lexer::lexed(content@)
                ==> simple_reach(without_comments(toks), 0, without_comments(toks).len() as int)) ==> (r is Ok
                && final(self).modules_open() == old(self).modules_open() + 1 && final(self).reading(canonical@)))),
    {
        self.resolver.supply(event)
    }

    /// Analyze the entry program against the resolved modules. The response
    /// carries a copy of the entry's syntax tree beside its typed program.
    pub fn finish(self) -> (r: Result<FrontendResponse, DriverError>)
        ensures
            r matches Err(e) ==> e is Analysis,
            r matches Ok(f) ==> analyzed(self.entry().3.declarations@, f.typed_program),
            r matches Ok(f) ==> f.resolved_modules@ == self.resolved() && f.source == self.entry().0
                && f.filename == self.entry().1 && f.tokens == self.entry().2
                && f.ast.declarations.len() == self.entry().3.declarations.len() && forall|i: int|
                0 <= i < f.ast.declarations.len() ==> same_decl(self.entry().3.declarations@[i], #[trigger] f.ast.declarations@[i]),
            imports_unknown(self.entry().3.declarations@, self.resolved()) ==> r is Err,
            (forall|i: int| 0 <= i < self.entry().3.declarations.len() ==> plain_decl(#[trigger] self.entry().3.declarations@[i]))
                ==> (r matches Ok(f) && f.typed_program.declarations.len() == emitted(self.entry().3.declarations@).len()),
    {
        let resolved = self.resolver.into_resolved();
        let ast_copy = self.ast.clone();
        proof {
            assert(self.entry().3 == self.ast);
        }
        let typed_program = analyze_entry(self.ast, &resolved)?;
        Ok(FrontendResponse {
            tokens: self.tokens,
            ast: ast_copy,
            typed_program,
            resolved_modules: resolved,
            source: self.source,
            filename: self.filename,
        })
    }
}

/// The diagnostic a failed compilation reports. An analysis error of the
/// entry file gets the file name and the offending source line, so that its
/// caret panel renders; other errors are converted as they are.
pub fn report_error(opts: &CompilationOptions, e: DriverError, source: Option<&str>) -> (c: CompilerError)
    ensures
        c.kind == driver_error_kind(e),
        e matches DriverError::Analysis(ae) ==> c.message == ae.message && c.span == ae.span && c.hint == ae.hint
            && (match (ae.span, source) {
                (Some(sp), Some(src)) => match crate::diagnostics::nth_line(src@, sp.line as nat) {
                    Some(l) => c.filename == Some(opts.project_path) && (c.source_line matches Some(t) && t@ == l),
                    None => c.filename is None && c.source_line is None,
                },
                _ => c.filename is None && c.source_line is None,
            }),
{
    match e {
        DriverError::Analysis(ae) => {
            let ce = CompilerError::from(ae);
            match (ce.span, source) {
                (Some(sp), Some(src)) => match source_line_at(src, sp.line) {
                    Some(line) => CompilerError { filename: Some(opts.project_path.clone()), source_line: Some(line), ..ce },
                    None => ce,
                },
                _ => ce,
            }
        },
        other => other.into_compiler_error(),
    }
}

/// The outcome of a compilation whose frontend ran: the frontend stages
/// return what the frontend produced; the backend stages need the LLVM
/// backend, which this build does not have.
pub fn compile(opts: &CompilationOptions, frontend: Result<FrontendResponse, DriverError>, source: Option<&str>) -> (r: Result<CompileOutput, CompilerError>)
    ensures
        frontend is Ok && !(effective(*opts) == EmitKind::Llvm || effective(*opts) == EmitKind::Bin) ==> (r matches Ok(
            CompileOutput::Frontend { emit, .. },
        ) && emit == effective(*opts)),
        frontend is Ok && (effective(*opts) == EmitKind::Llvm || effective(*opts) == EmitKind::Bin) ==> (r matches Err(c)
            && c.kind == ErrorKind::Toolchain),
        frontend matches Err(e) ==> (r matches Err(c) && c.kind == driver_error_kind(e)),
{
    let emit = opts.effective_emit();
    match frontend {
        Err(e) => Err(report_error(opts, e, source)),
        Ok(f) => {
            if !emit.needs_backend() {
                Ok(CompileOutput::Frontend { emit, frontend: Box::new(f) })
            } else {
                let what = match emit {
                    EmitKind::Llvm => str_to_string("--emit=llvm"),
                    _ => str_to_string("linking a binary"),
                };
                Err(report_error(opts, DriverError::LlvmUnavailable(what), source))
            }
        },
    }
}
} // verus!
