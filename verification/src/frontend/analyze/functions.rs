//! Typing of function declarations: signatures, bodies and their returns.
#![verifier::loop_isolation(false)]
use vstd::prelude::*;

use crate::frontend::analyze::cache::GenericCache;
use crate::diagnostics::ErrorKind;
use crate::frontend::analyze::coerce::{Coercion, assign_coercion, assignable, describe_type, type_text};
use crate::frontend::analyze::generics::{comptime_param_indices, is_generic_function, generic_decl};
use crate::frontend::analyze::statements::{fails_at, simple_stmt, stmt_error, stmt_typed_as, stmts_to_typed, scope_kept};
use crate::frontend::analyze::types::{map_type, type_of};
use crate::frontend::analyze::{AnalysisError, with_opt_line};
use crate::frontend::ast::{FunctionDeclaration, FunctionParameter, Statement, StatementKind};
use crate::frontend::analyze::expressions::{lemma_plain_fits, lemma_plain_type, plain_fits, plain_type, typed_as};
use crate::frontend::tokens::{BuiltinType, Identifier};
use crate::frontend::typed_ast::{
    GenericFunctionTemplate, Scope, ScopeKind, SymbolTable, Ty, TyV, TypedBinding, TypedFunction, TypedIf,
    TypedExpr, TypedStatement, TypedSwitchArm, TypedSymbol, lemma_tys_view, lookup_in, ty_eq, tys_view,
};
use crate::text::{decimal, push_str, str_to_string, usize_to_string};

verus! {

/// The first body statement's line, which stands for the function in
/// messages about its signature.
pub open spec fn body_line(f: FunctionDeclaration) -> Option<usize> {
    match f.body {
        Some(b) => if b.statements.len() > 0 {
            Some(b.statements@[0].span.line)
        } else {
            None
        },
        None => None,
    }
}

pub fn fn_body_line(f: &FunctionDeclaration) -> (r: Option<usize>)
    ensures
        r == body_line(*f),
{
    match &f.body {
        Some(b) => if b.statements.len() > 0 {
            Some(b.statements[0].span.line)
        } else {
            None
        },
        None => None,
    }
}

/// The runtime parameters of a signature: the `type`-typed ones are left out.
pub open spec fn runtime_params(ps: Seq<FunctionParameter>) -> Seq<(Seq<char>, TyV)>
    decreases ps.len(),
{
    if ps.len() == 0 {
        Seq::empty()
    } else {
        let rest = runtime_params(ps.drop_last());
        let t = type_of(&ps.last().parameter_type);
        if t == TyV::Type {
            rest
        } else {
            rest.push((ps.last().parameter_name@, t))
        }
    }
}

pub open spec fn params_view(v: Seq<(Identifier, Ty)>) -> Seq<(Seq<char>, TyV)> {
    Seq::new(v.len(), |i: int| (v[i].0@, v[i].1@))
}

/// The declared return type; no annotation means `@void`.
pub open spec fn return_type_of(f: FunctionDeclaration) -> TyV {
    match f.signature.return_type {
        Some(rt) => type_of(&rt),
        None => TyV::Builtin(BuiltinType::Void),
    }
}

/// The parameter types and return type of a signature.
pub fn signature_to_typed(f: &FunctionDeclaration) -> (r: (Vec<(Identifier, Ty)>, Ty))
    ensures
        params_view(r.0@) == runtime_params(f.signature.parameters@),
        r.1@ == return_type_of(*f),
{
    let ps = &f.signature.parameters;
    let mut params: Vec<(Identifier, Ty)> = Vec::new();
    let mut i: usize = 0;
    while i < ps.len()
        invariant
            0 <= i <= ps.len(),
            params_view(params@) == runtime_params(ps@.subrange(0, i as int)),
        decreases ps.len() - i,
    {
        let ty = map_type(&ps[i].parameter_type);
        proof {
            assert(ps@.subrange(0, i + 1).drop_last() =~= ps@.subrange(0, i as int));
        }
        let is_type = match ty {
            Ty::Type => true,
            _ => false,
        };
        let ghost before = params@;
        if !is_type {
            params.push((ps[i].parameter_name.copy(), ty));
            proof {
                assert(params_view(params@) =~= params_view(before).push((ps@[i as int].parameter_name@, type_of(&ps@[i as int].parameter_type))));
            }
        }
        i = i + 1;
    }
    proof {
        assert(ps@.subrange(0, ps.len() as int) =~= ps@);
    }
    let return_type = match &f.signature.return_type {
        Some(rt) => map_type(rt),
        None => Ty::Builtin(BuiltinType::Void),
    };
    (params, return_type)
}

/// The symbols `syms` bind the runtime parameters `ps`, in order, each as a
/// mutable variable of its type with no initializer.
pub open spec fn binds_params(syms: Seq<(Identifier, TypedSymbol)>, ps: Seq<(Seq<char>, TyV)>) -> bool {
    &&& syms.len() == ps.len()
    &&& forall|k: int| 0 <= k < ps.len() ==> (#[trigger] syms[k]).0@ == ps[k].0 && (syms[k].1 matches TypedSymbol::Binding(b)
        && b.name@ == ps[k].0 && b.ty@ == ps[k].1 && b.init is None && b.mutable)
}

/// A `return` whose plain values fit `ret` (any other statement passes).
pub open spec fn plain_return_fits(s: StatementKind, scopes: Seq<Scope>, ret: TyV) -> bool {
    match s {
        StatementKind::Return(None) => ret == TyV::Builtin(BuiltinType::Void),
        StatementKind::Return(Some(es)) => if es.len() == 0 {
            ret == TyV::Builtin(BuiltinType::Void)
        } else {
            match ret {
                TyV::Tuple { elements } => es.len() == elements.len() && forall|k: int|
                    0 <= k < es.len() ==> plain_fits(scopes, #[trigger] es@[k], plain_type(es@[k], scopes)->0, elements[k]),
                _ => es.len() == 1 && plain_fits(scopes, es@[0], plain_type(es@[0], scopes)->0, ret),
            }
        },
        _ => true,
    }
}

/// In the function scopes `fs`, each statement of the body of `f` is simple
/// and each of its `return`s fits the declared return type.
pub open spec fn body_plain_in(f: FunctionDeclaration, fs: Seq<Scope>) -> bool {
    match f.body {
        Some(b) => forall|i: int| 0 <= i < b.statements.len() ==> simple_stmt((#[trigger] b.statements@[i]).kind, 0, fs)
            && plain_return_fits(b.statements@[i].kind, fs, return_type_of(f)),
        None => true,
    }
}

/// The body of `f` types plainly in every function scope over `scopes` that
/// binds its parameters: simple statements, and `return`s that fit.
pub open spec fn plain_body(f: FunctionDeclaration, scopes: Seq<Scope>) -> bool {
    forall|fs: Seq<Scope>| fs.len() == scopes.len() + 1 && fs.drop_last() == scopes && fs.last().kind == ScopeKind::Function
        && binds_params(fs.last().symbols@, runtime_params(f.signature.parameters@)) ==> #[trigger] body_plain_in(f, fs)
}

/// `fs` is a function scope over `scopes` that binds the parameters of `f`.
pub open spec fn fn_scope(f: FunctionDeclaration, scopes: Seq<Scope>, fs: Seq<Scope>) -> bool {
    &&& fs.len() == scopes.len() + 1
    &&& fs.drop_last() == scopes
    &&& fs.last().kind == ScopeKind::Function
    &&& binds_params(fs.last().symbols@, runtime_params(f.signature.parameters@))
}

/// Statement `j` of the body of `f` is the first one that fails, in every
/// function scope over `scopes` that binds the parameters.
pub open spec fn body_fails_at(f: FunctionDeclaration, scopes: Seq<Scope>, j: int) -> bool {
    f.body matches Some(b) && forall|fs: Seq<Scope>| #[trigger] fn_scope(f, scopes, fs) ==> fails_at(b.statements@, 0, fs, j)
}

/// Simple statements whose `return`s fit `ret`, typed as `stmt_typed_as`
/// says, have every `return` fitting `ret`.
proof fn lemma_plain_returns(stmts: Seq<Statement>, typed: Seq<TypedStatement>, fs: Seq<Scope>, ret: TyV)
    requires
        stmts.len() == typed.len(),
        forall|i: int| 0 <= i < stmts.len() ==> simple_stmt((#[trigger] stmts[i]).kind, 0, fs)
            && plain_return_fits(stmts[i].kind, fs, ret) && stmt_typed_as(stmts[i].kind, 0, fs, typed[i]),
    ensures
        body_returns_fit(fs, typed, ret),
    decreases stmts.len(),
{
    if stmts.len() > 0 {
        let n = stmts.len() - 1;
        lemma_plain_returns(stmts.drop_last(), typed.drop_last(), fs, ret);
        let st = stmts[n];
        assert(simple_stmt(st.kind, 0, fs) && plain_return_fits(st.kind, fs, ret) && stmt_typed_as(st.kind, 0, fs, typed[n]));
        if let StatementKind::Return(Some(es)) = st.kind {
            if let TypedStatement::Return(Some(rv)) = typed[n] {
                assert forall|k: int, t: TyV| 0 <= k < es.len() implies (#[trigger] value_fits(fs, rv.values@[k], t) <==> plain_fits(
                    fs,
                    es@[k],
                    plain_type(es@[k], fs)->0,
                    t,
                )) by {
                    assert(typed_as(es@[k], fs, rv.values@[k]));
                    lemma_plain_type(es@[k], fs, rv.values@[k]);
                    lemma_plain_fits(es@[k], fs, rv.values@[k], t);
                }
            }
        }
        assert(stmt_returns_fit(fs, typed[n], ret));
        assert(typed.drop_last() =~= typed.subrange(0, n));
    }
}

/// Type a function: its parameters are bound in a scope of their own, its
/// body is typed statement by statement, and every `return` is checked
/// against the declared return type.
pub fn func_to_typed(f: FunctionDeclaration, scope: &mut SymbolTable, cache: &mut GenericCache, fuel: usize) -> (r: Result<TypedFunction, AnalysisError>)
    requires
        old(cache).wf(),
        old(scope).scopes.len() > 0,
    ensures
        final(cache).wf(),
        r is Ok ==> final(scope).scopes@ == old(scope).scopes@ && final(scope).modules == old(scope).modules,
        r is Err ==> final(scope).scopes@ == old(scope).scopes@ && final(scope).modules == old(scope).modules,
        r matches Ok(t) ==> t.name == f.signature.name && params_view(t.params@) == runtime_params(f.signature.parameters@)
            && t.return_type@ == return_type_of(f) && t.is_extern == f.is_extern && t.is_variadic == f.is_variadic
            && t.body.len() == (match f.body {
                Some(b) => b.statements.len(),
                None => 0,
            }),
        r matches Ok(t) ==> exists|fs: Seq<Scope>| fs.drop_last() == old(scope).scopes@ && #[trigger] body_returns_fit(
            fs,
            t.body@,
            t.return_type@,
        ),
        (match f.body {
            Some(b) => b.statements.len() == 0,
            None => true,
        }) ==> r is Ok && *final(cache) == *old(cache),
        plain_body(f, old(scope).scopes@) ==> r is Ok && *final(cache) == *old(cache),
        forall|j: int| #[trigger] body_fails_at(f, old(scope).scopes@, j) ==> (r matches Err(e) && f.body matches Some(b)
            && e.span == Some(b.statements@[j].span) && exists|fs: Seq<Scope>| #[trigger] fn_scope(f, old(scope).scopes@, fs)
            && e.message@ == stmt_error(b.statements@[j].kind, 0, fs)->0),
    decreases fuel, 3nat, f,
{
    let ghost f0 = f;
    let fn_line = fn_body_line(&f);
    let (params, return_type) = signature_to_typed(&f);
    let ghost before = scope.scopes@;
    let before_depth = scope.scopes.len();
    scope.enter_scope(ScopeKind::Function);
    let ps = &f.signature.parameters;
    let mut i: usize = 0;
    while i < ps.len()
        invariant
            0 <= i <= ps.len(),
            scope.scopes.len() == before.len() + 1,
            scope.scopes@.drop_last() == before,
            scope.modules == old(scope).modules,
            scope.scopes@.last().kind == ScopeKind::Function,
            binds_params(scope.scopes@.last().symbols@, runtime_params(ps@.subrange(0, i as int))),
            ps@ == f0.signature.parameters@,
        decreases ps.len() - i,
    {
        let ty = map_type(&ps[i].parameter_type);
        let is_type = match ty {
            Ty::Type => true,
            _ => false,
        };
        let ghost prev = runtime_params(ps@.subrange(0, i as int));
        proof {
            assert(ps@.subrange(0, i + 1).drop_last() =~= ps@.subrange(0, i as int));
            assert(ps@.subrange(0, i + 1).last() == ps@[i as int]);
            assert(is_type == (type_of(&ps@[i as int].parameter_type) == TyV::Type));
        }
        if !is_type {
            let ghost syms = scope.scopes@.last().symbols@;
            scope.insert(
                ps[i].parameter_name.copy(),
                TypedSymbol::Binding(TypedBinding { name: ps[i].parameter_name.copy(), ty, init: None, mutable: true }),
            );
            proof {
                let now = runtime_params(ps@.subrange(0, i + 1));
                assert(now == prev.push((ps@[i as int].parameter_name@, type_of(&ps@[i as int].parameter_type))));
                assert forall|k: int| 0 <= k < now.len() implies (#[trigger] scope.scopes@.last().symbols@[k]).0@ == now[k].0
                    && (scope.scopes@.last().symbols@[k].1 matches TypedSymbol::Binding(b) && b.name@ == now[k].0 && b.ty@ == now[k].1
                    && b.init is None && b.mutable) by {
                    if k < prev.len() {
                        assert(scope.scopes@.last().symbols@[k] == syms[k]);
                    }
                }
            }
        }
        i = i + 1;
    }
    proof {
        assert(ps@.subrange(0, ps.len() as int) =~= ps@);
    }
    let (name, body_stmts) = match f.body {
        Some(b) => (f.signature.name, b.statements),
        None => (f.signature.name, Vec::new()),
    };
    let ghost fs0 = scope.scopes@;
    let ghost plain = plain_body(f0, old(scope).scopes@);
    proof {
        if plain {
            assert(fs0.drop_last() == before);
            assert(body_plain_in(f0, fs0));
        }
    }
    let ghost stmts0 = body_stmts@;
    proof {
        assert(fn_scope(f0, before, fs0));
        assert(forall|j: int| #[trigger] body_fails_at(f0, before, j) ==> (f0.body matches Some(b) && stmts0 == b.statements@
            && fails_at(stmts0, 0, fs0, j)));
    }
    let body = match stmts_to_typed(body_stmts, scope, cache, fuel, 0) {
        Ok(b) => b,
        Err(e) => {
            proof {
                assert(forall|k: int| 0 <= k < before.len() ==> #[trigger] scope.scopes@[k] == fs0[k]);
            }
            scope.leave_to(before_depth);
            proof {
                assert(scope.scopes@ =~= before);
            }
            return Err(e);
        },
    };
    let ghost fs = scope.scopes@;
    proof {
        if body.len() == 0 {
            assert(body@ =~= Seq::<TypedStatement>::empty());
        }
    }
    proof {
        if plain {
            match f0.body {
                Some(b) => {
                    assert(stmts0 == b.statements@);
                    lemma_plain_returns(stmts0, body@, fs, return_type@);
                },
                None => {
                    assert(body@ =~= Seq::<TypedStatement>::empty());
                },
            }
        }
    }
    match validate_return_types(&body, &return_type, scope) {
        Ok(()) => {},
        Err(e) => {
            proof {
                assert(forall|k: int| 0 <= k < before.len() ==> #[trigger] scope.scopes@[k] == fs0[k]) by {
                    assert forall|k: int| 0 <= k < before.len() implies #[trigger] scope.scopes@[k] == fs0[k] by {
                        assert(scope.scopes@.drop_last()[k] == fs0.drop_last()[k]);
                    }
                }
            }
            scope.leave_to(before_depth);
            proof {
                assert(scope.scopes@ =~= before);
            }
            return Err(with_opt_line(e, fn_line));
        },
    }
    scope.exit_scope();
    let typed = TypedFunction { name, params, return_type, body, is_extern: f.is_extern, is_variadic: f.is_variadic };
    proof {
        assert(fs.drop_last() == before);
        assert(body_returns_fit(fs, typed.body@, typed.return_type@));
    }
    Ok(typed)
}

/// A message of the `return type mismatch: ...` family.
pub open spec fn return_mismatch_text(m: Seq<char>) -> bool {
    exists|rest: Seq<char>| m == "return type mismatch: "@ + rest
}

proof fn lemma_mismatch_prefix(x: Seq<char>)
    ensures
        return_mismatch_text("return type mismatch: function returns "@ + x),
{
    reveal_strlit("return type mismatch: function returns ");
    reveal_strlit("return type mismatch: ");
    reveal_strlit("function returns ");
    assert(("return type mismatch: function returns "@ + x) =~= "return type mismatch: "@ + ("function returns "@ + x));
}

fn return_mismatch(return_type: &Ty, found: &str) -> (e: AnalysisError)
    ensures
        e.kind == ErrorKind::Type,
        e.span is None,
        e.hint is None,
        e.message@ == "return type mismatch: function returns "@ + type_text(return_type@) + " but this returns "@ + found@,
        return_mismatch_text(e.message@),
{
    let mut m = str_to_string("return type mismatch: function returns ");
    push_str(&mut m, describe_type(return_type).as_str());
    push_str(&mut m, " but this returns ");
    push_str(&mut m, found);
    proof {
        lemma_mismatch_prefix(type_text(return_type@) + " but this returns "@ + found@);
        assert(m@ =~= "return type mismatch: function returns "@ + (type_text(return_type@) + " but this returns "@ + found@));
    }
    AnalysisError::from_message(m)
}

/// The message of a `return` without a value in a function that returns
/// something.
fn missing_value_mismatch(return_type: &Ty) -> (e: AnalysisError)
    ensures
        e.message@ == "return type mismatch: function returns "@ + type_text(return_type@) + " but `return` has no value"@,
        return_mismatch_text(e.message@),
{
    let mut m = str_to_string("return type mismatch: function returns ");
    push_str(&mut m, describe_type(return_type).as_str());
    push_str(&mut m, " but `return` has no value");
    proof {
        lemma_mismatch_prefix(type_text(return_type@) + " but `return` has no value"@);
        assert(m@ =~= "return type mismatch: function returns "@ + (type_text(return_type@) + " but `return` has no value"@));
    }
    AnalysisError::from_message(m)
}

/// A returned value fits the declared type by the assignment rule.
pub open spec fn value_fits(scopes: Seq<Scope>, v: TypedExpr, t: TyV) -> bool {
    assign_coercion(scopes, v.expression, v.inferred_type@, t) != Coercion::Reject
}

/// The values of one `return` fit the declared type `ret`: none for
/// `@void`, one per element of a tuple type, otherwise exactly one.
pub open spec fn return_values_fit(scopes: Seq<Scope>, values: Seq<TypedExpr>, ret: TyV) -> bool {
    if values.len() == 0 {
        ret == TyV::Builtin(BuiltinType::Void)
    } else {
        match ret {
            TyV::Tuple { elements } => values.len() == elements.len() && forall|k: int|
                0 <= k < values.len() ==> value_fits(scopes, #[trigger] values[k], elements[k]),
            _ => values.len() == 1 && value_fits(scopes, values[0], ret),
        }
    }
}

/// Every `return` in `s`, nested ones included, fits `ret`.
pub open spec fn stmt_returns_fit(scopes: Seq<Scope>, s: TypedStatement, ret: TyV) -> bool
    decreases s,
{
    match s {
        TypedStatement::Return(Some(r)) => return_values_fit(scopes, r.values@, ret),
        TypedStatement::Return(None) => ret == TyV::Builtin(BuiltinType::Void),
        TypedStatement::If(ti) => {
            proof { assert(decreases_to!(ti.then_branch => ti.then_branch@)); }
            &&& body_returns_fit(scopes, ti.then_branch@, ret)
            &&& match ti.else_branch {
                Some(e) => {
                    proof { assert(decreases_to!(e => e@)); }
                    body_returns_fit(scopes, e@, ret)
                },
                None => true,
            }
        },
        TypedStatement::For { init, post, body, .. } => {
            proof { assert(decreases_to!(body => body@)); }
            &&& match init {
                Some(b) => stmt_returns_fit(scopes, *b, ret),
                None => true,
            }
            &&& match post {
                Some(b) => stmt_returns_fit(scopes, *b, ret),
                None => true,
            }
            &&& body_returns_fit(scopes, body@, ret)
        },
        TypedStatement::Defer(inner) => stmt_returns_fit(scopes, *inner, ret),
        TypedStatement::Switch { arms, .. } => {
            proof { assert(decreases_to!(arms => arms@)); }
            arms_return_fit(scopes, arms@, ret)
        },
        _ => true,
    }
}

/// Every statement of `s` has its returns fit `ret`.
pub open spec fn body_returns_fit(scopes: Seq<Scope>, s: Seq<TypedStatement>, ret: TyV) -> bool
    decreases s,
{
    s.len() > 0 ==> {
        proof {
            assert(decreases_to!(s => s.drop_last()));
            assert(decreases_to!(s => s[s.len() - 1]));
        }
        body_returns_fit(scopes, s.drop_last(), ret) && stmt_returns_fit(scopes, s[s.len() - 1], ret)
    }
}

/// The bodies of the arms `s` have their returns fit `ret`.
pub open spec fn arms_return_fit(scopes: Seq<Scope>, s: Seq<TypedSwitchArm>, ret: TyV) -> bool
    decreases s,
{
    s.len() > 0 ==> {
        proof {
            assert(decreases_to!(s => s.drop_last()));
            assert(decreases_to!(s => s[s.len() - 1]));
            assert(decreases_to!(s[s.len() - 1] => s[s.len() - 1].body));
            assert(decreases_to!(s[s.len() - 1].body => s[s.len() - 1].body@));
        }
        arms_return_fit(scopes, s.drop_last(), ret) && body_returns_fit(scopes, s[s.len() - 1].body@, ret)
    }
}

proof fn lemma_body_prefix(scopes: Seq<Scope>, s: Seq<TypedStatement>, ret: TyV, i: int)
    requires
        0 <= i <= s.len(),
        !body_returns_fit(scopes, s.subrange(0, i), ret),
    ensures
        !body_returns_fit(scopes, s, ret),
    decreases s.len() - i,
{
    if i < s.len() {
        assert(s.subrange(0, i + 1).drop_last() =~= s.subrange(0, i));
        lemma_body_prefix(scopes, s, ret, i + 1);
    } else {
        assert(s.subrange(0, i) =~= s);
    }
}

proof fn lemma_arms_prefix(scopes: Seq<Scope>, s: Seq<TypedSwitchArm>, ret: TyV, i: int)
    requires
        0 <= i <= s.len(),
        !arms_return_fit(scopes, s.subrange(0, i), ret),
    ensures
        !arms_return_fit(scopes, s, ret),
    decreases s.len() - i,
{
    if i < s.len() {
        assert(s.subrange(0, i + 1).drop_last() =~= s.subrange(0, i));
        lemma_arms_prefix(scopes, s, ret, i + 1);
    } else {
        assert(s.subrange(0, i) =~= s);
    }
}

/// Check one returned value against the expected type with the assignment rule.
fn check_one(return_type: &Ty, value: &TypedExpr, scope: &SymbolTable) -> (r: Result<(), AnalysisError>)
    ensures
        r is Ok <==> value_fits(scope.scopes@, *value, return_type@),
        r matches Err(e) ==> return_mismatch_text(e.message@),
{
    if assignable(return_type, value, scope) {
        Ok(())
    } else {
        let found = describe_type(&value.inferred_type);
        Err(return_mismatch(return_type, found.as_str()))
    }
}

/// Check every `return` in `body` against the declared return type: no value
/// only in a `@void` function, one value per element of a tuple return type,
/// otherwise exactly one value, each fitting by the assignment rule.
pub fn validate_return_types(body: &Vec<TypedStatement>, return_type: &Ty, scope: &SymbolTable) -> (r: Result<(), AnalysisError>)
    ensures
        r is Ok <==> body_returns_fit(scope.scopes@, body@, return_type@),
        r matches Err(e) ==> return_mismatch_text(e.message@),
    decreases body, 0nat,
{
    let mut i: usize = 0;
    proof {
        assert(body@.subrange(0, 0) =~= Seq::<TypedStatement>::empty());
    }
    while i < body.len()
        invariant
            0 <= i <= body.len(),
            body_returns_fit(scope.scopes@, body@.subrange(0, i as int), return_type@),
        decreases body.len() - i,
    {
        proof {
            assert(decreases_to!(body => body@));
            assert(decreases_to!(body@ => body@[i as int]));
            assert(body@.subrange(0, i + 1).drop_last() =~= body@.subrange(0, i as int));
        }
        match validate_return_stmt(&body[i], return_type, scope) {
            Ok(()) => {},
            Err(e) => {
                proof {
                    lemma_body_prefix(scope.scopes@, body@, return_type@, i + 1);
                }
                return Err(e);
            },
        }
        i = i + 1;
    }
    proof {
        assert(body@.subrange(0, i as int) =~= body@);
    }
    Ok(())
}

fn validate_return_stmt(s: &TypedStatement, return_type: &Ty, scope: &SymbolTable) -> (r: Result<(), AnalysisError>)
    ensures
        r is Ok <==> stmt_returns_fit(scope.scopes@, *s, return_type@),
        r matches Err(e) ==> return_mismatch_text(e.message@),
    decreases s, 0nat,
{
    let void = Ty::Builtin(BuiltinType::Void);
    match s {
        TypedStatement::Return(Some(ret)) => {
            if ret.values.len() == 0 {
                if !ty_eq(return_type, &void) {
                    return Err(missing_value_mismatch(return_type));
                }
                return Ok(());
            }
            match return_type {
                Ty::Tuple { elements } => {
                    proof {
                        lemma_tys_view(elements@);
                    }
                    if ret.values.len() != elements.len() {
                        let mut m = str_to_string("return type mismatch: function returns ");
                        push_str(&mut m, usize_to_string(elements.len()).as_str());
                        push_str(&mut m, " value(s) but this returns ");
                        push_str(&mut m, usize_to_string(ret.values.len()).as_str());
                        proof {
                            let x = decimal(elements.len() as nat) + " value(s) but this returns "@ + decimal(ret.values.len() as nat);
                            lemma_mismatch_prefix(x);
                            assert(m@ =~= "return type mismatch: function returns "@ + x);
                        }
                        return Err(AnalysisError::from_message(m));
                    }
                    let mut k: usize = 0;
                    while k < ret.values.len()
                        invariant
                            0 <= k <= ret.values.len(),
                            ret.values.len() == elements.len(),
                            tys_view(elements@).len() == elements.len(),
                            forall|j: int| 0 <= j < elements.len() ==> #[trigger] tys_view(elements@)[j] == elements@[j]@,
                            forall|j: int| 0 <= j < k ==> value_fits(scope.scopes@, #[trigger] ret.values@[j], tys_view(elements@)[j]),
                        decreases ret.values.len() - k,
                    {
                        match check_one(&elements[k], &ret.values[k], scope) {
                            Ok(()) => {},
                            Err(e) => {
                                return Err(e);
                            },
                        }
                        k = k + 1;
                    }
                    Ok(())
                },
                _ => {
                    if ret.values.len() != 1 {
                        let mut m = usize_to_string(ret.values.len());
                        push_str(&mut m, " values");
                        return Err(return_mismatch(return_type, m.as_str()));
                    }
                    check_one(return_type, &ret.values[0], scope)
                },
            }
        },
        TypedStatement::Return(None) => {
            if !ty_eq(return_type, &void) {
                return Err(missing_value_mismatch(return_type));
            }
            Ok(())
        },
        TypedStatement::If(ti) => {
            proof {
                assert(decreases_to!(ti => ti.then_branch));
                assert(decreases_to!(ti => ti.else_branch));
            }
            match validate_return_types(&ti.then_branch, return_type, scope) {
                Ok(()) => {},
                Err(e) => {
                    return Err(e);
                },
            }
            match &ti.else_branch {
                Some(e) => validate_return_types(e, return_type, scope),
                None => Ok(()),
            }
        },
        TypedStatement::For { init, post, body: inner, .. } => {
            match init {
                Some(b) => match validate_return_stmt(&**b, return_type, scope) {
                    Ok(()) => {},
                    Err(e) => {
                        return Err(e);
                    },
                },
                None => {},
            }
            match post {
                Some(b) => match validate_return_stmt(&**b, return_type, scope) {
                    Ok(()) => {},
                    Err(e) => {
                        return Err(e);
                    },
                },
                None => {},
            }
            validate_return_types(inner, return_type, scope)
        },
        TypedStatement::Defer(inner) => validate_return_stmt(&**inner, return_type, scope),
        TypedStatement::Switch { arms, .. } => {
            let mut k: usize = 0;
            proof {
                assert(arms@.subrange(0, 0) =~= Seq::<TypedSwitchArm>::empty());
            }
            while k < arms.len()
                invariant
                    0 <= k <= arms.len(),
                    arms_return_fit(scope.scopes@, arms@.subrange(0, k as int), return_type@),
                decreases arms.len() - k,
            {
                proof {
                    assert(decreases_to!(arms => arms@));
                    assert(decreases_to!(arms@ => arms@[k as int]));
                    assert(decreases_to!(arms@[k as int] => arms@[k as int].body));
                    assert(arms@.subrange(0, k + 1).drop_last() =~= arms@.subrange(0, k as int));
                }
                match validate_return_types(&arms[k].body, return_type, scope) {
                    Ok(()) => {},
                    Err(e) => {
                        proof {
                            lemma_arms_prefix(scope.scopes@, arms@, return_type@, k + 1);
                        }
                        return Err(e);
                    },
                }
                k = k + 1;
            }
            proof {
                assert(arms@.subrange(0, k as int) =~= arms@);
            }
            Ok(())
        },
        _ => Ok(()),
    }
}

/// Register a function's signature (or, for a generic one, its template)
/// so that calls, recursive ones included, resolve before its body is typed.
pub fn resolve_function_decl(f: &FunctionDeclaration, scope: &mut SymbolTable)
    requires
        old(scope).scopes.len() > 0,
    ensures
        final(scope).scopes.len() == old(scope).scopes.len(),
        final(scope).scopes@.drop_last() == old(scope).scopes@.drop_last(),
        final(scope).modules == old(scope).modules,
        final(scope).scopes@.last().symbols@.drop_last() == old(scope).scopes@.last().symbols@,
        final(scope).scopes@.last().symbols.len() == old(scope).scopes@.last().symbols.len() + 1,
        final(scope).scopes@.last().symbols@.last().0@ == f.signature.name@,
        generic_decl(*f) ==> (lookup_in(final(scope).scopes@, f.signature.name@) matches Some(TypedSymbol::GenericFunction(t))
            && t.name == f.signature.name),
        !generic_decl(*f) ==> (lookup_in(final(scope).scopes@, f.signature.name@) matches Some(TypedSymbol::Function(t))
            && t.name == f.signature.name && params_view(t.params@) == runtime_params(f.signature.parameters@)
            && t.return_type@ == return_type_of(*f) && t.body.len() == 0 && t.is_extern == f.is_extern
            && t.is_variadic == f.is_variadic),
{
    if is_generic_function(f) {
        let comptime_params = comptime_param_indices(f);
        scope.insert(
            f.signature.name.clone(),
            TypedSymbol::GenericFunction(GenericFunctionTemplate {
                name: f.signature.name.clone(),
                ast_decl: f.clone(),
                comptime_params,
            }),
        );
        return;
    }
    let (params, return_type) = signature_to_typed(f);
    scope.insert(
        f.signature.name.clone(),
        TypedSymbol::Function(TypedFunction {
            name: f.signature.name.clone(),
            params,
            return_type,
            body: Vec::new(),
            is_extern: f.is_extern,
            is_variadic: f.is_variadic,
        }),
    );
}

} // verus!
