//! Semantic analysis: name resolution and type checking of a parsed program.
use vstd::prelude::*;

use crate::diagnostics::{ErrorKind, Span};
use crate::frontend::analyze::cache::{GenericCache, name_lt};
use crate::frontend::analyze::functions::{body_fails_at, fn_body_line, fn_scope, func_to_typed, params_view, plain_body, return_type_of, runtime_params};
use crate::frontend::analyze::generics::{generic_decl, is_generic_function};
use crate::frontend::analyze::types::{map_type, resolve_declaration, type_of};
use crate::frontend::ast::{Ast, DeclarationNode, ExpressionKind, FunctionDeclaration, FunctionParameter, ImportDeclaration, StatementKind, TypeExpressionKind};
use crate::frontend::analyze::statements::fails_at;
use crate::frontend::tokens::Identifier;
use crate::frontend::typed_ast::{
    Scope, SymbolTable, TypedDecl, TypedModule, TypedProgram, TypedSymbol, TypedTypeDecl, clone_decls, find_last_index, lookup_in,
};
use crate::text::{push_str, str_to_string};

pub mod types;
pub mod coerce;
pub mod cache;
pub mod escapes;
pub mod expressions;
pub mod statements;
pub mod functions;
pub mod generics;

verus! {

/// An error found by semantic analysis.
#[derive(Debug)]
pub struct AnalysisError {
    pub kind: ErrorKind,
    /// The source position the error originates from, if known. Filled in as
    /// the error propagates up through the statement that triggered it.
    pub span: Option<Span>,
    pub message: String,
    /// An optional remedy hint rendered alongside the diagnostic.
    pub hint: Option<String>,
}

impl AnalysisError {
    /// A type error with `message` and no position or hint.
    pub fn from_message(message: String) -> (e: Self)
        ensures
            e.kind == ErrorKind::Type,
            e.span is None,
            e.message == message,
            e.hint is None,
    {
        AnalysisError { kind: ErrorKind::Type, span: None, message, hint: None }
    }

    /// A type error whose message is `message`.
    pub fn from_str(message: &str) -> (e: Self)
        ensures
            e.kind == ErrorKind::Type,
            e.span is None,
            e.message@ == message@,
            e.hint is None,
    {
        AnalysisError::from_message(str_to_string(message))
    }

    /// Attach a source line if none is set yet: an inner, more precise
    /// position always wins.
    pub fn with_line(self, line: usize) -> (e: Self)
        ensures
            e == (AnalysisError {
                span: match self.span {
                    Some(s) => Some(s),
                    None => Some(Span { line, column: 1 }),
                },
                ..self
            }),
    {
        match self.span {
            Some(_) => self,
            None => AnalysisError { span: Some(Span::new(line, 1)), ..self },
        }
    }

    /// Attach a precise source span, replacing any coarser one.
    pub fn with_span(self, span: Span) -> (e: Self)
        ensures
            e == (AnalysisError { span: Some(span), ..self }),
    {
        AnalysisError { span: Some(span), ..self }
    }

    /// Attach a source span only when none is set yet.
    pub fn with_span_fallback(self, span: Span) -> (e: Self)
        ensures
            e == (AnalysisError {
                span: match self.span {
                    Some(s) => Some(s),
                    None => Some(span),
                },
                ..self
            }),
    {
        match self.span {
            Some(_) => self,
            None => AnalysisError { span: Some(span), ..self },
        }
    }

    /// Label the error with the stage that produced it.
    pub fn with_kind(self, kind: ErrorKind) -> (e: Self)
        ensures
            e == (AnalysisError { kind, ..self }),
    {
        AnalysisError { kind, ..self }
    }

    /// Attach a remedy hint.
    pub fn with_hint(self, hint: &str) -> (e: Self)
        ensures
            e.hint matches Some(h) && h@ == hint@,
            e.kind == self.kind,
            e.span == self.span,
            e.message == self.message,
    {
        AnalysisError { hint: Some(str_to_string(hint)), ..self }
    }
}

/// The text of an analysis error: `AnalysisError at line N: message`, or
/// `AnalysisError: message` when no position is known.
pub open spec fn analysis_error_text(e: AnalysisError) -> Seq<char> {
    match e.span {
        Some(sp) => "AnalysisError at line "@ + crate::text::decimal(sp.line as nat) + ": "@ + e.message@,
        None => "AnalysisError: "@ + e.message@,
    }
}

impl AnalysisError {
    /// The error as text.
    pub fn describe(&self) -> (s: String)
        ensures
            s@ == analysis_error_text(*self),
    {
        match self.span {
            Some(sp) => {
                let mut s = str_to_string("AnalysisError at line ");
                crate::text::push_decimal(&mut s, sp.line as u64);
                push_str(&mut s, ": ");
                push_str(&mut s, self.message.as_str());
                s
            },
            None => crate::text::concat("AnalysisError: ", self.message.as_str()),
        }
    }
}

impl From<String> for AnalysisError {
    fn from(value: String) -> (e: Self) {
        AnalysisError::from_message(value)
    }
}

impl vstd::std_specs::convert::FromSpecImpl<String> for AnalysisError {
    open spec fn obeys_from_spec() -> bool {
        true
    }

    open spec fn from_spec(v: String) -> Self {
        AnalysisError { kind: ErrorKind::Type, span: None, message: v, hint: None }
    }
}

/// `err` with `line` attached when one is known.
pub fn with_opt_line(err: AnalysisError, line: Option<usize>) -> (e: AnalysisError)
    ensures
        e == match line {
            Some(l) => AnalysisError {
                span: match err.span {
                    Some(s) => Some(s),
                    None => Some(Span { line: l, column: 1 }),
                },
                ..err
            },
            None => err,
        },
{
    match line {
        Some(l) => err.with_line(l),
        None => err,
    }
}


/// How deeply generic instantiations may nest (each level analyzes one
/// instantiated body).
pub const GENERIC_NESTING_LIMIT: usize = 64;

/// The line a top-level declaration is reported at: a function's first body
/// statement; imports and type declarations carry no line.
pub open spec fn decl_line(d: DeclarationNode) -> Option<usize> {
    match d {
        DeclarationNode::FunctionDeclaration(f) => crate::frontend::analyze::functions::body_line(f),
        _ => None,
    }
}

pub fn declaration_line(d: &DeclarationNode) -> (r: Option<usize>)
    ensures
        r == decl_line(*d),
{
    match d {
        DeclarationNode::FunctionDeclaration(f) => fn_body_line(f),
        _ => None,
    }
}

/// The names of a module path.
pub open spec fn path_names(path: Seq<Identifier>) -> Seq<Seq<char>> {
    Seq::new(path.len(), |i: int| path[i]@)
}

pub open spec fn key_names(key: Seq<String>) -> Seq<Seq<char>> {
    Seq::new(key.len(), |i: int| key[i]@)
}

/// Some resolved module is stored under `path`.
pub open spec fn module_known(modules: Seq<(Vec<String>, TypedModule)>, path: Seq<Seq<char>>) -> bool {
    exists|j: int| 0 <= j < modules.len() && key_names((#[trigger] modules[j]).0@) == path
}

/// An import of a module that was not resolved.
pub open spec fn unknown_import(d: DeclarationNode, modules: Seq<(Vec<String>, TypedModule)>) -> bool {
    d matches DeclarationNode::ImportDeclaration(imp) && !module_known(modules, path_names(imp.path@))
}

/// A declaration that yields a typed declaration of its own: a non-generic
/// function or a type declaration that is not a `type` alias of `type`.
pub open spec fn emits(d: DeclarationNode) -> bool {
    match d {
        DeclarationNode::FunctionDeclaration(f) => !generic_decl(f),
        DeclarationNode::TypeDeclaration(t) => !(t.expression.kind is TypeKeyword),
        DeclarationNode::ImportDeclaration(_) => false,
    }
}

/// The declarations that yield a typed declaration, in order.
pub open spec fn emitted(ds: Seq<DeclarationNode>) -> Seq<DeclarationNode>
    decreases ds.len(),
{
    if ds.len() == 0 {
        Seq::empty()
    } else if emits(ds.last()) {
        emitted(ds.drop_last()).push(ds.last())
    } else {
        emitted(ds.drop_last())
    }
}

/// `t` is the typed form of the declaration `d`.
pub open spec fn typed_decl_of(d: DeclarationNode, t: TypedDecl) -> bool {
    match d {
        DeclarationNode::FunctionDeclaration(f) => t matches TypedDecl::Function(g) && g.name == f.signature.name
            && params_view(g.params@) == runtime_params(f.signature.parameters@) && g.return_type@ == return_type_of(f)
            && g.is_extern == f.is_extern && g.is_variadic == f.is_variadic,
        DeclarationNode::TypeDeclaration(td) => t matches TypedDecl::Type(tt) && tt.name == td.name
            && tt.ty@ == type_of(&td.expression),
        DeclarationNode::ImportDeclaration(_) => false,
    }
}

/// The resolved module stored under an import's path.
fn find_module<'a>(modules: &'a Vec<(Vec<String>, TypedModule)>, path: &Vec<Identifier>) -> (r: Option<&'a TypedModule>)
    ensures
        r is Some <==> module_known(modules@, path_names(path@)),
        r matches Some(m) ==> exists|j: int| 0 <= j < modules.len() && key_names((#[trigger] modules@[j]).0@) == path_names(path@)
            && modules@[j].1 == *m,
{
    let mut j: usize = 0;
    while j < modules.len()
        invariant
            0 <= j <= modules.len(),
            forall|k: int| 0 <= k < j ==> key_names((#[trigger] modules@[k]).0@) != path_names(path@),
        decreases modules.len() - j,
    {
        let key = &modules[j].0;
        if key.len() == path.len() {
            let mut i: usize = 0;
            let mut same = true;
            while i < key.len()
                invariant
                    0 <= i <= key.len(),
                    key.len() == path.len(),
                    same == (forall|m: int| 0 <= m < i ==> key@[m]@ == path@[m]@),
                decreases key.len() - i,
            {
                if !crate::frontend::typed_ast::str_eq(key[i].as_str(), path[i].value.as_str()) {
                    same = false;
                }
                i = i + 1;
            }
            if same {
                proof {
                    assert(key_names(key@) =~= path_names(path@));
                }
                return Some(&modules[j].1);
            }
            proof {
                let m = choose|m: int| 0 <= m < key.len() && key@[m]@ != path@[m]@;
                assert(key_names(key@)[m] != path_names(path@)[m]);
            }
        } else {
            proof {
                assert(key_names(key@).len() != path_names(path@).len());
            }
        }
        j = j + 1;
    }
    None
}

/// `a::b` for a module path.
fn path_text(path: &Vec<Identifier>) -> (s: String)
    ensures
        s@ == crate::driver::joined_text(path_names(path@), "::"@),
{
    let mut s = str_to_string("");
    let mut i: usize = 0;
    proof {
        reveal_strlit("");
        assert(path_names(path@).subrange(0, 0) =~= Seq::<Seq<char>>::empty());
    }
    while i < path.len()
        invariant
            0 <= i <= path.len(),
            s@ == crate::driver::joined_text(path_names(path@).subrange(0, i as int), "::"@),
        decreases path.len() - i,
    {
        proof {
            let names = path_names(path@);
            assert(names.subrange(0, i + 1).drop_last() =~= names.subrange(0, i as int));
            assert(names.subrange(0, i + 1).last() == path@[i as int]@);
            if i == 0 {
                assert(names.subrange(0, 1) =~= seq![path@[0]@]);
            }
        }
        if i > 0 {
            push_str(&mut s, "::");
        }
        push_str(&mut s, path[i].value.as_str());
        proof {
            if i == 0 {
                assert(s@ =~= path@[0]@);
            }
        }
        i = i + 1;
    }
    proof {
        assert(path_names(path@).subrange(0, i as int) =~= path_names(path@));
    }
    s
}

/// Bring one import into scope: selected symbols are copied into the global
/// scope, a whole module is registered under its alias or last path name.
fn resolve_import(import: &ImportDeclaration, modules: &Vec<(Vec<String>, TypedModule)>, scope: &mut SymbolTable) -> (r: Result<(), AnalysisError>)
    requires
        old(scope).scopes.len() > 0,
    ensures
        final(scope).scopes.len() == old(scope).scopes.len(),
        !module_known(modules@, path_names(import.path@)) ==> r is Err,
        module_known(modules@, path_names(import.path@)) && import.selective is None && (import.alias is Some
            || import.path.len() > 0) ==> r is Ok && final(scope).modules@.len() == old(scope).modules@.len() + 1
            && final(scope).modules@.last().0@ == (match import.alias {
                Some(a) => a@,
                None => import.path@.last()@,
            }) && exists|j: int| 0 <= j < modules.len() && key_names((#[trigger] modules@[j]).0@) == path_names(import.path@)
                && modules@[j].1.name == final(scope).modules@.last().1.name
                && modules@[j].1.exports.len() == final(scope).modules@.last().1.exports.len(),
        module_known(modules@, path_names(import.path@)) && import.selective is None && import.alias is None
            && import.path.len() == 0 ==> r is Err,
        (import.selective matches Some(sel) && module_known(modules@, path_names(import.path@)) && forall|j: int, i: int|
            0 <= j < modules.len() && key_names((#[trigger] modules@[j]).0@) == path_names(import.path@) && 0 <= i < sel.len()
                ==> crate::frontend::typed_ast::find_last(modules@[j].1.exports@, (#[trigger] sel@[i])@) is Some) ==> r is Ok,
        r is Ok ==> (import.selective matches Some(sel) ==> final(scope).scopes@.drop_last() == old(scope).scopes@.drop_last()
            && final(scope).scopes@.last().symbols@.len() == old(scope).scopes@.last().symbols@.len() + sel.len()
            && forall|i: int| 0 <= i < sel.len() ==> (#[trigger] final(scope).scopes@.last().symbols@[old(
            scope).scopes@.last().symbols@.len() + i]).0@ == sel@[i]@),
{
    let module = match find_module(modules, &import.path) {
        Some(m) => m,
        None => {
            let mut m = str_to_string("module '");
            push_str(&mut m, path_text(&import.path).as_str());
            push_str(&mut m, "' not found");
            return Err(AnalysisError::from_message(m));
        },
    };
    match &import.selective {
        Some(selected) => {
            let mut i: usize = 0;
            while i < selected.len()
                invariant
                    0 <= i <= selected.len(),
                    scope.scopes.len() == old(scope).scopes.len(),
                    old(scope).scopes.len() > 0,
                    import.selective == Some(*selected),
                    exists|j: int| 0 <= j < modules.len() && key_names((#[trigger] modules@[j]).0@) == path_names(import.path@)
                        && modules@[j].1 == *module,
                    scope.scopes@.drop_last() == old(scope).scopes@.drop_last(),
                    scope.scopes@.last().symbols@.len() == old(scope).scopes@.last().symbols@.len() + i,
                    forall|k: int| 0 <= k < i ==> (#[trigger] scope.scopes@.last().symbols@[old(scope).scopes@.last().symbols@.len()
                        + k]).0@ == selected@[k]@,
                decreases selected.len() - i,
            {
                match find_last_index(&module.exports, &selected[i]) {
                    Some(k) => {
                        let ghost before = scope.scopes@.last().symbols@;
                        scope.insert(selected[i].copy(), module.exports[k].1.clone());
                        proof {
                            assert forall|q: int| 0 <= q < i + 1 implies (#[trigger] scope.scopes@.last().symbols@[old(
                                scope).scopes@.last().symbols@.len() + q]).0@ == selected@[q]@ by {
                                if q < i {
                                    assert(scope.scopes@.last().symbols@[old(scope).scopes@.last().symbols@.len() + q]
                                        == before[old(scope).scopes@.last().symbols@.len() + q]);
                                }
                            }
                        }
                    },
                    None => {
                        proof {
                            let j = choose|j: int| 0 <= j < modules.len() && key_names((#[trigger] modules@[j]).0@)
                                == path_names(import.path@) && modules@[j].1 == *module;
                            assert(crate::frontend::typed_ast::find_last(modules@[j].1.exports@, selected@[i as int]@) is None);
                            let sel = *selected;
                            assert(import.selective == Some(sel));
                            assert(!(import.selective matches Some(sel) && module_known(modules@, path_names(import.path@)) && forall|j: int, i: int|
            0 <= j < modules.len() && key_names((#[trigger] modules@[j]).0@) == path_names(import.path@) && 0 <= i < sel.len()
                ==> crate::frontend::typed_ast::find_last(modules@[j].1.exports@, (#[trigger] sel@[i])@) is Some));
                        }
                        let mut m = str_to_string("'");
                        push_str(&mut m, selected[i].value.as_str());
                        push_str(&mut m, "' not found in module '");
                        push_str(&mut m, path_text(&import.path).as_str());
                        push_str(&mut m, "'");
                        return Err(AnalysisError::from_message(m));
                    },
                }
                i = i + 1;
            }
            Ok(())
        },
        None => {
            let local_name = match &import.alias {
                Some(a) => a.value.clone(),
                None => {
                    if import.path.len() == 0 {
                        return Err(AnalysisError::from_str("empty import path"));
                    }
                    import.path[import.path.len() - 1].value.clone()
                },
            };
            scope.insert_module(local_name, module.clone());
            Ok(())
        },
    }
}

/// The program `p` is what analyzing `decls` gives: each declaration that
/// emits code in its typed form, in order, then the generic instances, in
/// name order.
pub open spec fn analyzed(decls: Seq<DeclarationNode>, p: TypedProgram) -> bool {
    &&& p.declarations.len() >= emitted(decls).len()
    &&& forall|k: int| 0 <= k < emitted(decls).len() ==> typed_decl_of(#[trigger] emitted(decls)[k], p.declarations@[k])
    &&& forall|k: int| emitted(decls).len() <= k < p.declarations.len() ==> (#[trigger] p.declarations@[k]) is Function
    &&& forall|a: int, b: int| emitted(decls).len() <= a < b < p.declarations.len() ==> name_lt(
        (#[trigger] p.declarations@[a])->Function_0.name@,
        (#[trigger] p.declarations@[b])->Function_0.name@,
    )
}

/// A declaration that always analyzes: a type declaration, or a function
/// with no statements in its body (or no body), or whose body is plain in
/// any scope that binds its parameters.
pub open spec fn plain_decl(d: DeclarationNode) -> bool {
    match d {
        DeclarationNode::ImportDeclaration(_) => false,
        DeclarationNode::TypeDeclaration(_) => true,
        DeclarationNode::FunctionDeclaration(f) => match f.body {
            Some(b) => b.statements.len() == 0 || forall|sc: Seq<Scope>| #[trigger] plain_body(f, sc),
            None => true,
        },
    }
}

/// The name a declaration binds, if any.
pub open spec fn decl_name(d: DeclarationNode) -> Option<Seq<char>> {
    match d {
        DeclarationNode::FunctionDeclaration(f) => Some(f.signature.name@),
        DeclarationNode::TypeDeclaration(td) => Some(td.name@),
        DeclarationNode::ImportDeclaration(_) => None,
    }
}

/// The names the declarations bind.
pub open spec fn decl_names(ds: Seq<DeclarationNode>) -> Set<Seq<char>> {
    Set::new(|n: Seq<char>| exists|i: int| 0 <= i < ds.len() && #[trigger] decl_name(ds[i]) == Some(n))
}

/// Every symbol of the scopes has a name among `names`.
pub open spec fn names_bound(scopes: Seq<Scope>, names: Set<Seq<char>>) -> bool {
    forall|s: int, q: int| 0 <= s < scopes.len() && 0 <= q < scopes[s].symbols.len() ==> names.contains(
        #[trigger] scopes[s].symbols@[q].0@,
    )
}

/// A name outside `names` is bound nowhere in scopes whose symbols are all
/// named from `names`.
pub proof fn lemma_unbound(scopes: Seq<Scope>, names: Set<Seq<char>>, n: Seq<char>)
    requires
        names_bound(scopes, names),
        !names.contains(n),
    ensures
        lookup_in(scopes, n) is None,
    decreases scopes.len(),
{
    if scopes.len() > 0 {
        crate::frontend::typed_ast::lemma_find_last(scopes.last().symbols@, n);
        assert(names_bound(scopes.drop_last(), names)) by {
            assert forall|s: int, q: int| 0 <= s < scopes.drop_last().len() && 0 <= q < scopes.drop_last()[s].symbols.len()
                implies names.contains(#[trigger] scopes.drop_last()[s].symbols@[q].0@) by {
                assert(scopes.drop_last()[s] == scopes[s]);
            }
        }
        lemma_unbound(scopes.drop_last(), names, n);
        if let Some(i) = crate::frontend::typed_ast::find_last(scopes.last().symbols@, n) {
            assert(names.contains(scopes[scopes.len() - 1].symbols@[i].0@));
        }
    }
}

/// Declaration `k` is the first that fails, at statement `j` of its body:
/// the program imports nothing, every declaration before `k` always
/// analyzes, and `k` is a function whose body fails first at `j` in any
/// scope that binds no names but those of the declarations up to `k`.
pub open spec fn decl_fails_at(decls: Seq<DeclarationNode>, k: int, j: int) -> bool {
    &&& 0 <= k < decls.len()
    &&& forall|i: int| 0 <= i < decls.len() ==> !((#[trigger] decls[i]) is ImportDeclaration)
    &&& forall|i: int| 0 <= i < k ==> plain_decl(#[trigger] decls[i])
    &&& decls[k] matches DeclarationNode::FunctionDeclaration(f) && !generic_decl(f) && forall|sc: Seq<Scope>|
        names_bound(sc, decl_names(decls.subrange(0, k + 1))) ==> #[trigger] body_fails_at(f, sc, j)
}

/// Each runtime parameter is named as one of the declared parameters.
proof fn lemma_runtime_names(ps: Seq<FunctionParameter>, k: int)
    requires
        0 <= k < runtime_params(ps).len(),
    ensures
        exists|i: int| 0 <= i < ps.len() && (#[trigger] ps[i]).parameter_name@ == runtime_params(ps)[k].0,
    decreases ps.len(),
{
    let rest = runtime_params(ps.drop_last());
    if k < rest.len() {
        lemma_runtime_names(ps.drop_last(), k);
        let i = choose|i: int| 0 <= i < ps.drop_last().len() && (#[trigger] ps.drop_last()[i]).parameter_name@ == rest[k].0;
        assert(ps[i] == ps.drop_last()[i]);
    } else {
        assert(ps[ps.len() - 1].parameter_name@ == runtime_params(ps)[k].0);
    }
}

/// A function whose body starts by returning a name that neither a
/// declaration up to it nor one of its parameters binds fails at that
/// `return`, in a program that imports nothing and whose earlier
/// declarations always analyze.
pub proof fn lemma_unbound_return_fails(decls: Seq<DeclarationNode>, k: int, f: FunctionDeclaration, x: Seq<char>)
    requires
        0 <= k < decls.len(),
        forall|i: int| 0 <= i < decls.len() ==> !((#[trigger] decls[i]) is ImportDeclaration),
        forall|i: int| 0 <= i < k ==> plain_decl(#[trigger] decls[i]),
        decls[k] == DeclarationNode::FunctionDeclaration(f),
        !generic_decl(f),
        f.body matches Some(b) && b.statements.len() > 0 && (b.statements@[0].kind matches StatementKind::Return(Some(es))
            && es.len() > 0 && (es@[0].kind matches ExpressionKind::Identifier(name) && name@ == x)),
        !decl_names(decls.subrange(0, k + 1)).contains(x),
        forall|p: int| 0 <= p < f.signature.parameters.len() ==> (#[trigger] f.signature.parameters@[p]).parameter_name@ != x,
    ensures
        decl_fails_at(decls, k, 0),
{
    let b = f.body->Some_0;
    let names = decl_names(decls.subrange(0, k + 1));
    let rps = runtime_params(f.signature.parameters@);
    let all_names = names.union(Set::new(|n: Seq<char>| exists|q: int| 0 <= q < rps.len() && #[trigger] rps[q].0 == n));
    assert(!all_names.contains(x)) by {
        if exists|q: int| 0 <= q < rps.len() && #[trigger] rps[q].0 == x {
            let q = choose|q: int| 0 <= q < rps.len() && #[trigger] rps[q].0 == x;
            lemma_runtime_names(f.signature.parameters@, q);
        }
    }
    assert forall|sc: Seq<Scope>| names_bound(sc, names) implies #[trigger] body_fails_at(f, sc, 0) by {
        assert forall|fs: Seq<Scope>| #[trigger] fn_scope(f, sc, fs) implies fails_at(b.statements@, 0, fs, 0) by {
            assert forall|s: int, q: int| 0 <= s < fs.len() && 0 <= q < fs[s].symbols.len() implies all_names.contains(
                #[trigger] fs[s].symbols@[q].0@,
            ) by {
                if s < sc.len() {
                    assert(fs[s] == fs.drop_last()[s]);
                } else {
                    assert(fs[s].symbols@[q].0@ == rps[q].0);
                }
            }
            lemma_unbound(fs, all_names, x);
        }
    }
}

/// The span of statement `j` of the body of declaration `d`.
pub open spec fn stmt_span_of(d: DeclarationNode, j: int) -> Option<Span> {
    match d {
        DeclarationNode::FunctionDeclaration(f) => match f.body {
            Some(b) => Some(b.statements@[j].span),
            None => None,
        },
        _ => None,
    }
}

/// Some declaration imports a module that is not among `resolved`.
pub open spec fn imports_unknown(decls: Seq<DeclarationNode>, resolved: Seq<(Vec<String>, TypedModule)>) -> bool {
    exists|i: int| 0 <= i < decls.len() && unknown_import(#[trigger] decls[i], resolved)
}

/// Analyze a parsed program against the modules it imports (already
/// analyzed, by module path): imports first, then each declaration in order,
/// then the generic instantiations in name order.
pub fn analyze(ast: Ast, resolved_modules: &Vec<(Vec<String>, TypedModule)>) -> (r: Result<TypedProgram, AnalysisError>)
    ensures
        imports_unknown(ast.declarations@, resolved_modules@) ==> r is Err,
        r matches Ok(p) ==> analyzed(ast.declarations@, p),
        (forall|i: int| 0 <= i < ast.declarations.len() ==> plain_decl(#[trigger] ast.declarations@[i])) ==> (r matches Ok(p)
            && p.declarations.len() == emitted(ast.declarations@).len()),
        forall|k: int, j: int| #[trigger] decl_fails_at(ast.declarations@, k, j) ==> (r matches Err(e)
            && e.span == stmt_span_of(ast.declarations@[k], j)),
{
    let mut scope = SymbolTable::new();
    let ghost init = scope;
    let ghost no_imports = forall|q: int| 0 <= q < ast.declarations.len() ==> !((#[trigger] ast.declarations@[q]) is ImportDeclaration);
    let decls = ast.declarations;
    let n = decls.len();
    let mut i: usize = 0;
    while i < n
        invariant
            n == decls.len(),
            0 <= i <= n,
            scope.scopes.len() == 1,
            no_imports ==> scope == init,
            no_imports == forall|q: int| 0 <= q < n ==> !((#[trigger] decls@[q]) is ImportDeclaration),
            init.scopes.len() == 1,
            init.scopes@[0].symbols.len() == 0,
            forall|j: int| 0 <= j < i ==> !unknown_import(#[trigger] decls@[j], resolved_modules@),
            decls@ == ast.declarations@,
        decreases n - i,
    {
        match &decls[i] {
            DeclarationNode::ImportDeclaration(import) => {
                let line = declaration_line(&decls[i]);
                match resolve_import(import, resolved_modules, &mut scope) {
                    Ok(()) => {},
                    Err(e) => {
                        return Err(with_opt_line(e, line));
                    },
                }
            },
            _ => {},
        }
        i = i + 1;
    }
    let mut imported_declarations: Vec<TypedDecl> = Vec::new();
    let mut m: usize = 0;
    while m < scope.modules.len()
        invariant
            scope.scopes.len() == 1,
        decreases scope.modules.len() - m,
    {
        let mut ds = clone_decls(&scope.modules[m].1.declarations);
        while ds.len() > 0
            decreases ds.len(),
        {
            imported_declarations.push(ds.remove(0));
        }
        m = m + 1;
    }
    let mut j: usize = 0;
    while j < n
        invariant
            n == decls.len(),
            scope.scopes.len() == 1,
            no_imports ==> scope == init,
        decreases n - j,
    {
        match &decls[j] {
            DeclarationNode::ImportDeclaration(import) => {
                if import.selective.is_some() {
                    match find_module(resolved_modules, &import.path) {
                        Some(module) => {
                            let mut ds = clone_decls(&module.declarations);
                            while ds.len() > 0
                                decreases ds.len(),
                            {
                                imported_declarations.push(ds.remove(0));
                            }
                        },
                        None => {},
                    }
                }
            },
            _ => {},
        }
        j = j + 1;
    }
    let ghost all = decls@;
    let mut cache = GenericCache::new();
    let mut typed_declarations: Vec<TypedDecl> = Vec::new();
    let mut rest = decls;
    let mut i: usize = 0;
    proof {
        assert(all.subrange(0, 0) =~= Seq::<DeclarationNode>::empty());
    }
    while i < n
        invariant
            n == all.len(),
            0 <= i <= n,
            rest@ == all.subrange(i as int, n as int),
            scope.scopes.len() == 1,
            cache.wf(),
            typed_declarations.len() == emitted(all.subrange(0, i as int)).len(),
            forall|k: int| 0 <= k < typed_declarations.len() ==> typed_decl_of(
                #[trigger] emitted(all.subrange(0, i as int))[k], typed_declarations@[k]),
            all == ast.declarations@,
            forall|k: int, j: int| #[trigger] decl_fails_at(all, k, j) ==> k >= i,
            (forall|k: int| 0 <= k < n ==> plain_decl(#[trigger] all[k])) ==> cache.size() == 0,
            no_imports == forall|q: int| 0 <= q < n ==> !((#[trigger] all[q]) is ImportDeclaration),
            no_imports ==> names_bound(scope.scopes@, decl_names(all.subrange(0, i as int))),
        decreases n - i,
    {
        let d = rest.remove(0);
        proof {
            assert(d == all[i as int]);
            assert(rest@ =~= all.subrange(i + 1, n as int));
            assert(all.subrange(0, i + 1).drop_last() =~= all.subrange(0, i as int));
            assert(all.subrange(0, i + 1).last() == d);
        }
        let line = declaration_line(&d);
        let ghost before = typed_declarations@;
        let ghost prior = scope;
        resolve_declaration(&d, &mut scope);
        proof {
            if no_imports {
                let pre = all.subrange(0, i as int);
                let post = all.subrange(0, i + 1);
                assert(!(d is ImportDeclaration));
                assert forall|s: int, q: int| 0 <= s < scope.scopes@.len() && 0 <= q < scope.scopes@[s].symbols.len()
                    implies decl_names(post).contains(#[trigger] scope.scopes@[s].symbols@[q].0@) by {
                    let nm = scope.scopes@[s].symbols@[q].0@;
                    if q < prior.scopes@[0].symbols.len() {
                        assert(scope.scopes@[0].symbols@[q] == prior.scopes@[0].symbols@[q]);
                        assert(decl_names(pre).contains(nm));
                        let ii = choose|ii: int| 0 <= ii < pre.len() && #[trigger] decl_name(pre[ii]) == Some(nm);
                        assert(post[ii] == pre[ii]);
                    } else {
                        assert(decl_name(post[i as int]) == Some(nm));
                    }
                }
            }
        }
        match d {
            DeclarationNode::ImportDeclaration(_) => {},
            DeclarationNode::FunctionDeclaration(f) => {
                if !is_generic_function(&f) {
                    let ghost f0 = f;
                    let ghost sc = scope.scopes@;
                    proof {
                        assert forall|k: int, j: int| #[trigger] decl_fails_at(all, k, j) && k == i implies body_fails_at(
                            f0,
                            sc,
                            j,
                        ) by {
                            assert(names_bound(sc, decl_names(all.subrange(0, k + 1))));
                        }
                    }
                    match func_to_typed(f, &mut scope, &mut cache, GENERIC_NESTING_LIMIT) {
                        Ok(t) => {
                            typed_declarations.push(TypedDecl::Function(t));
                            proof {
                                assert(typed_decl_of(DeclarationNode::FunctionDeclaration(f0), typed_declarations@.last()));
                            }
                        },
                        Err(e) => {
                            proof {
                                assert forall|k: int, j: int| #[trigger] decl_fails_at(all, k, j) implies k == i by {
                                    if k > i {
                                        assert(plain_decl(all[i as int]));
                                    }
                                }
                            }
                            return Err(with_opt_line(e, line));
                        },
                    }
                }
            },
            DeclarationNode::TypeDeclaration(td) => {
                let is_type_keyword = match td.expression.kind {
                    TypeExpressionKind::TypeKeyword => true,
                    _ => false,
                };
                if !is_type_keyword {
                    let ty = map_type(&td.expression);
                    let ghost td0 = td;
                    typed_declarations.push(TypedDecl::Type(TypedTypeDecl { name: td.name, ty }));
                    proof {
                        assert(typed_decl_of(DeclarationNode::TypeDeclaration(td0), typed_declarations@.last()));
                    }
                }
            },
        }
        proof {
            let pre = all.subrange(0, i as int);
            let post = all.subrange(0, i + 1);
            assert(post.drop_last() =~= pre);
            if emits(all[i as int]) {
                assert(emitted(post) == emitted(pre).push(all[i as int]));
                assert forall|k: int| 0 <= k < typed_declarations.len() implies typed_decl_of(
                    #[trigger] emitted(post)[k], typed_declarations@[k]) by {
                    if k < before.len() {
                        assert(typed_declarations@[k] == before[k]);
                    }
                }
            } else {
                assert(emitted(post) == emitted(pre));
            }
        }
        i = i + 1;
    }
    proof {
        assert(all.subrange(0, n as int) =~= all);
    }
    let emitted_count = typed_declarations.len();
    let mut instantiated = cache.into_functions();
    let ghost inst = instantiated@;
    while instantiated.len() > 0
        invariant
            instantiated.len() <= inst.len(),
            typed_declarations.len() == emitted_count + (inst.len() - instantiated.len()),
            instantiated@ == inst.subrange(inst.len() - instantiated.len(), inst.len() as int),
            forall|k: int| 0 <= k < emitted_count ==> typed_decl_of(#[trigger] emitted(all)[k], typed_declarations@[k]),
            emitted_count == emitted(all).len(),
            forall|q: int| emitted_count <= q < typed_declarations.len() ==> (#[trigger] typed_declarations@[q])
                == TypedDecl::Function(inst[q - emitted_count]),
            forall|a: int, b: int| 0 <= a < b < inst.len() ==> name_lt(#[trigger] inst[a].name@, #[trigger] inst[b].name@),
        decreases instantiated.len(),
    {
        let ghost before = typed_declarations@;
        let ghost pending = instantiated@;
        let f = instantiated.remove(0);
        typed_declarations.push(TypedDecl::Function(f));
        proof {
            assert(instantiated@ =~= pending.subrange(1, pending.len() as int));
            assert(instantiated@ =~= inst.subrange(inst.len() - instantiated.len(), inst.len() as int));
            assert forall|k: int| 0 <= k < emitted_count implies typed_decl_of(#[trigger] emitted(all)[k], typed_declarations@[k]) by {
                assert(typed_declarations@[k] == before[k]);
            }
            assert(f == inst[inst.len() - pending.len()]);
        }
    }
    proof {
        assert forall|a: int, b: int| emitted_count <= a < b < typed_declarations.len() implies name_lt(
            (#[trigger] typed_declarations@[a])->Function_0.name@,
            (#[trigger] typed_declarations@[b])->Function_0.name@,
        ) by {
            assert(typed_declarations@[a] == TypedDecl::Function(inst[a - emitted_count]));
            assert(typed_declarations@[b] == TypedDecl::Function(inst[b - emitted_count]));
        }
    }
    Ok(TypedProgram { symbol_table: scope, declarations: typed_declarations, imported_declarations })
}
} // verus!
