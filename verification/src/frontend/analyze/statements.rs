//! Typing of statements: bindings, assignments and control flow.
#![verifier::loop_isolation(false)]
use vstd::prelude::*;

use crate::diagnostics::{ErrorKind, Span};
use crate::frontend::analyze::cache::GenericCache;
use crate::frontend::analyze::coerce::{assign_coercion, check_assignable, coerce_or_alias, coerced, describe_type, type_text};
use crate::frontend::analyze::expressions::{
    assign_fitted, expr_to_typed, lemma_plain_fits, lemma_plain_type, message3, plain_fits, plain_type, rejected, require_integer_index,
    typed_as, unbound_text,
};
use crate::frontend::analyze::types::{alias_fuel, integer_type, map_type, numeric_type, resolve_struct_fields, resolve_type_alias, resolved, struct_fields_of, type_of};
use crate::frontend::analyze::AnalysisError;
use crate::frontend::ast::{Expression, ExpressionKind, Pattern, Statement, StatementKind, SwitchArm, TypeExpressionKind, VariableDeclaration};
use crate::frontend::tokens::Identifier;
use crate::frontend::typed_ast::{
    Scope, ScopeKind, SymbolTable, Ty, TyV, TypedBinding, TypedExpr, TypedExprKind, TypedIf, TypedPattern, TypedReturn,
    TypedEnumVariant, TypedStatement, TypedSwitchArm, TypedSymbol, VariantV, copy_fields, fields_view, lemma_fields_view,
    lemma_variants_view, lookup_in, same_tbinding, str_eq, ty_eq, variant_view, variants_view,
};
use crate::frontend::tokens::BuiltinType;
use crate::driver::joined_text;
use crate::text::{decimal, push_str, str_to_string, usize_to_string};

verus! {

/// A statement leaves the enclosing scopes as they were and may only add
/// bindings to the innermost one.
pub open spec fn scope_kept(before: SymbolTable, after: SymbolTable) -> bool {
    &&& after.scopes.len() == before.scopes.len()
    &&& after.scopes@.drop_last() == before.scopes@.drop_last()
    &&& after.modules == before.modules
}

/// The scopes below the innermost one are left as they were, whatever the
/// outcome: a statement that fails may leave the scopes it opened, but
/// never touches the enclosing ones.
pub open spec fn outer_kept(before: SymbolTable, after: SymbolTable) -> bool {
    &&& after.scopes.len() >= before.scopes.len()
    &&& after.modules == before.modules
    &&& forall|k: int| 0 <= k < before.scopes.len() - 1 ==> #[trigger] after.scopes@[k] == before.scopes@[k]
}

/// A statement that keeps the scopes keeps the enclosing ones.
pub proof fn lemma_kept_outer(before: SymbolTable, after: SymbolTable)
    requires
        scope_kept(before, after),
    ensures
        outer_kept(before, after),
{
    assert forall|k: int| 0 <= k < before.scopes.len() - 1 implies #[trigger] after.scopes@[k] == before.scopes@[k] by {
        assert(after.scopes@.drop_last()[k] == before.scopes@.drop_last()[k]);
    }
}

/// The shape of a typed statement: each form maps to its typed form, and
/// `break`/`continue` only inside a loop. The expressions a statement types
/// in the scopes it starts in (`scopes`) are typed as `typed_as` says, and
/// assigned values are fitted to their target by the assignment rule.
pub open spec fn stmt_typed_as(s: StatementKind, loop_depth: usize, scopes: Seq<Scope>, r: TypedStatement) -> bool
    decreases s,
{
    match s {
        StatementKind::VariableDeclaration(d) => r matches TypedStatement::Binding(b) && b.name@ == d.identifier@ && b.mutable
            && (d.constant_type matches Some(t) ==> b.ty@ == type_of(&t))
            && (d.expression matches Some(e) ==> b.init matches Some(i) && initialized(e, scopes, b.ty@, i)),
        StatementKind::ExpressionStatement(e) => r matches TypedStatement::Expr(t) && typed_as(e, scopes, t),
        StatementKind::Assignment { identifier, expr } => r matches TypedStatement::Assign { name, expr: t } && name == identifier
            && (lookup_in(scopes, identifier@) matches Some(TypedSymbol::Binding(b)) && assign_fitted(expr, scopes, b.ty@, t)),
        StatementKind::FieldAssign { object, field, expr } => r matches TypedStatement::FieldAssign {
            object: obj,
            field: f,
            field_index,
            expr: t,
        } && f@ == field@ && typed_as(object, scopes, obj) && (struct_fields_of(scopes, obj.inferred_type@, alias_fuel(scopes))
            matches Some(fs) && field_index < fs.len() && fs[field_index as int].0 == field@
            && assign_fitted(expr, scopes, fs[field_index as int].1, t)),
        StatementKind::DerefAssign { pointer, expr } => r matches TypedStatement::DerefAssign { pointer: p, expr: t }
            && typed_as(pointer, scopes, p) && (p.inferred_type@ matches TyV::Pointer(pointee)
                && assign_fitted(expr, scopes, *pointee, t)),
        StatementKind::IndexAssign { object, index, expr } => r matches TypedStatement::IndexAssign { object: o, index: x, expr: t }
            && typed_as(object, scopes, o) && typed_as(index, scopes, x) && integer_type(x.inferred_type@)
            && match o.inferred_type@ {
                TyV::Pointer(elem) => assign_fitted(expr, scopes, *elem, t),
                TyV::Array { element_type, .. } => assign_fitted(expr, scopes, *element_type, t),
                _ => false,
            },
        StatementKind::Return(None) => r == TypedStatement::Return(None),
        StatementKind::Return(Some(es)) => r matches TypedStatement::Return(Some(ret)) && ret.values.len() == es.len()
            && forall|i: int| 0 <= i < es.len() ==> typed_as(es@[i], scopes, #[trigger] ret.values@[i]),
        StatementKind::MultiAssignment { targets, values } => r matches TypedStatement::MultiAssign { targets: ts, values: vs }
            && ts.len() == targets.len() && vs.len() == values.len()
            && (forall|i: int| 0 <= i < targets.len() ==> typed_as(targets@[i], scopes, #[trigger] ts@[i])
                && valid_target(targets@[i], scopes))
            && (forall|i: int| 0 <= i < values.len() ==> typed_as(values@[i], scopes, #[trigger] vs@[i]))
            && multi_value_types(targets.len() as nat, vs@) is Some,
        StatementKind::MultiVariableDeclaration { identifiers, values } => r matches TypedStatement::MultiBinding { bindings, values: vs }
            && bindings.len() == identifiers.len() && vs.len() == values.len()
            && (forall|i: int| 0 <= i < values.len() ==> typed_as(values@[i], scopes, #[trigger] vs@[i]))
            && (multi_value_types(identifiers.len() as nat, vs@) matches Some(ts)
                && forall|i: int| 0 <= i < bindings.len() ==> (#[trigger] bindings@[i]).name@ == identifiers@[i]@
                    && bindings@[i].ty@ == ts[i] && bindings@[i].mutable),
        StatementKind::If { condition, then_branch, else_branch } => r matches TypedStatement::If(ti)
            && typed_as(condition, scopes, ti.cond) && block_shaped(then_branch@, ti.then_branch@, loop_depth)
            && (match else_branch {
                Some(eb) => ti.else_branch matches Some(te) && block_shaped(eb@, te@, loop_depth),
                None => ti.else_branch is None,
            }),
        StatementKind::For { initializer, condition, post_operation, body } => r matches TypedStatement::For {
            init,
            cond,
            post,
            body: b,
        } && (match initializer {
            Some(x) => init matches Some(ti) && shape_typed(x.kind, *ti, loop_depth),
            None => init is None,
        }) && (match condition {
            Some(c) => cond matches Some(tc) && exists|sc: Seq<Scope>| #[trigger] typed_as(c, sc, tc),
            None => cond is None,
        }) && (match post_operation {
            Some(x) => post matches Some(tp) && shape_typed(x.kind, *tp, loop_depth),
            None => post is None,
        }) && block_shaped(body@, b@, deeper(loop_depth)),
        StatementKind::Break => loop_depth > 0 && r == TypedStatement::Break,
        StatementKind::Continue => loop_depth > 0 && r == TypedStatement::Continue,
        StatementKind::Defer(inner) => r matches TypedStatement::Defer(t) && stmt_typed_as(inner.kind, loop_depth, scopes, *t),
        StatementKind::Switch { subject, arms } => r matches TypedStatement::Switch { subject: t, arms: a, .. } && a.len() == arms.len()
            && typed_as(subject, scopes, t) && (crate::frontend::analyze::types::resolved(scopes, t.inferred_type@) matches TyV::Enum {
                variants: vs,
            } && exhaustive(vs, a@)) && forall|i: int| 0 <= i < arms.len() ==> block_shaped(
                arms@[i].body@,
                (#[trigger] a@[i]).body@,
                loop_depth,
            ),
    }
}

/// The loop depth of a `for` body.
pub open spec fn deeper(loop_depth: usize) -> usize {
    if loop_depth < usize::MAX {
        (loop_depth + 1) as usize
    } else {
        loop_depth
    }
}

/// The typed form of a statement of a block is the one its own form maps
/// to, with the same names and as many parts; `break` and `continue` only
/// inside a loop.
pub open spec fn shape_typed(s: StatementKind, t: TypedStatement, loop_depth: usize) -> bool {
    match s {
        StatementKind::VariableDeclaration(d) => t matches TypedStatement::Binding(b) && b.name@ == d.identifier@ && b.mutable
            && (d.constant_type matches Some(ct) ==> b.ty@ == type_of(&ct)),
        StatementKind::ExpressionStatement(_) => t is Expr,
        StatementKind::Assignment { identifier, .. } => t matches TypedStatement::Assign { name, .. } && name == identifier,
        StatementKind::FieldAssign { field, .. } => t matches TypedStatement::FieldAssign { field: f, .. } && f@ == field@,
        StatementKind::DerefAssign { .. } => t is DerefAssign,
        StatementKind::IndexAssign { .. } => t is IndexAssign,
        StatementKind::Return(None) => t == TypedStatement::Return(None),
        StatementKind::Return(Some(es)) => t matches TypedStatement::Return(Some(ret)) && ret.values.len() == es.len(),
        StatementKind::MultiAssignment { targets, values } => t matches TypedStatement::MultiAssign { targets: ts, values: vs }
            && ts.len() == targets.len() && vs.len() == values.len(),
        StatementKind::MultiVariableDeclaration { identifiers, values } => t matches TypedStatement::MultiBinding {
            bindings,
            values: vs,
        } && bindings.len() == identifiers.len() && vs.len() == values.len(),
        StatementKind::If { then_branch, else_branch, .. } => t matches TypedStatement::If(ti)
            && ti.then_branch.len() == then_branch.len() && (ti.else_branch is Some <==> else_branch is Some),
        StatementKind::For { initializer, condition, post_operation, body } => t matches TypedStatement::For {
            init,
            cond,
            post,
            body: b,
        } && (init is Some <==> initializer is Some) && (cond is Some <==> condition is Some) && (post is Some
            <==> post_operation is Some) && b.len() == body.len(),
        StatementKind::Break => loop_depth > 0 && t == TypedStatement::Break,
        StatementKind::Continue => loop_depth > 0 && t == TypedStatement::Continue,
        StatementKind::Defer(_) => t is Defer,
        StatementKind::Switch { arms, .. } => t matches TypedStatement::Switch { arms: a, .. } && a.len() == arms.len(),
    }
}

/// A block typed statement by statement, each as `shape_typed` says at
/// the block's loop depth.
pub open spec fn block_shaped(stmts: Seq<Statement>, v: Seq<TypedStatement>, loop_depth: usize) -> bool {
    v.len() == stmts.len() && forall|i: int| 0 <= i < stmts.len() ==> #[trigger] shape_typed(stmts[i].kind, v[i], loop_depth)
}

/// A typed statement has the shape of its form.
pub proof fn lemma_typed_shape(s: StatementKind, loop_depth: usize, scopes: Seq<Scope>, t: TypedStatement)
    requires
        stmt_typed_as(s, loop_depth, scopes, t),
    ensures
        shape_typed(s, t, loop_depth),
{
}

/// A statement that leaves the scopes as they are and always types: `break`
/// and `continue` inside a loop, a `return` of plain expressions (or of
/// nothing), and a plain expression.
pub open spec fn simple_stmt(s: StatementKind, loop_depth: usize, scopes: Seq<Scope>) -> bool {
    match s {
        StatementKind::Break | StatementKind::Continue => loop_depth > 0,
        StatementKind::Return(None) => true,
        StatementKind::Return(Some(es)) => forall|i: int| 0 <= i < es.len() ==> plain_type(#[trigger] es@[i], scopes) is Some,
        StatementKind::ExpressionStatement(e) => plain_type(e, scopes) is Some,
        _ => false,
    }
}

/// The error an assignment to `name` gets before its value is looked at:
/// `None` when `name` is a mutable variable.
pub open spec fn assignment_refusal(name: Seq<char>, scopes: Seq<Scope>) -> Option<(Seq<char>, Option<Seq<char>>)> {
    match lookup_in(scopes, name) {
        Some(TypedSymbol::Binding(b)) => if b.mutable {
            None
        } else {
            Some(("cannot assign to constant '"@ + name + "'"@, Some("declare the binding with `var` to make it mutable"@)))
        },
        Some(_) => Some(("cannot assign to '"@ + name + "': not a variable"@, None)),
        None => Some(("assignment to undeclared variable '"@ + name + "'"@, None)),
    }
}

/// `e` carries the message and hint of `refusal`.
pub open spec fn refusal_is(refusal: (Seq<char>, Option<Seq<char>>), e: AnalysisError) -> bool {
    e.message@ == refusal.0 && match refusal.1 {
        Some(t) => e.hint matches Some(x) && x@ == t,
        None => e.hint is None,
    }
}

/// The message a statement is refused with before anything in it is typed:
/// a jump outside any loop, an assignment that `assignment_refusal` turns
/// down, or a `return` whose first value is a name that nothing binds.
pub open spec fn stmt_error(s: StatementKind, loop_depth: usize, scopes: Seq<Scope>) -> Option<Seq<char>> {
    match s {
        StatementKind::Break | StatementKind::Continue => if loop_depth == 0 {
            Some(outside_loop_text(s))
        } else {
            None
        },
        StatementKind::Assignment { identifier, .. } => match assignment_refusal(identifier@, scopes) {
            Some(refusal) => Some(refusal.0),
            None => None,
        },
        StatementKind::Return(Some(es)) => if es.len() > 0 {
            match es@[0].kind {
                ExpressionKind::Identifier(name) => if lookup_in(scopes, name@) is None {
                    Some(unbound_text(name@))
                } else {
                    None
                },
                _ => None,
            }
        } else {
            None
        },
        _ => None,
    }
}

/// Statement `j` of a block is the first one that fails: those before it
/// are simple, and it is refused as `stmt_error` says.
pub open spec fn fails_at(stmts: Seq<Statement>, loop_depth: usize, scopes: Seq<Scope>, j: int) -> bool {
    &&& 0 <= j < stmts.len()
    &&& forall|k: int| 0 <= k < j ==> simple_stmt((#[trigger] stmts[k]).kind, loop_depth, scopes)
    &&& stmt_error(stmts[j].kind, loop_depth, scopes) is Some
}

/// The message of a `break` or `continue` outside any loop.
pub open spec fn outside_loop_text(s: StatementKind) -> Seq<char> {
    if s is Break {
        "`break` is only allowed inside a loop"@
    } else {
        "`continue` is only allowed inside a loop"@
    }
}

/// A `for` with no clauses whose body holds only `break` and `continue`.
pub open spec fn bare_loop(s: StatementKind) -> bool {
    s matches StatementKind::For { initializer, condition, post_operation, body } && initializer is None && condition is None
        && post_operation is None && forall|i: int| 0 <= i < body.len() ==> (#[trigger] body@[i]).kind is Break || body@[i].kind is Continue
}

/// Statement lists typed as `break` and `continue` statement by statement.
pub open spec fn jumps_typed(stmts: Seq<Statement>, v: Seq<TypedStatement>) -> bool {
    v.len() == stmts.len() && forall|i: int| 0 <= i < stmts.len() ==> ((#[trigger] stmts[i]).kind is Break ==> v[i] == TypedStatement::Break)
        && (stmts[i].kind is Continue ==> v[i] == TypedStatement::Continue)
}

/// A statement whose blocks are all empty: `if c {}` over a plain condition,
/// with an empty `else` block or none, or `for {}` with no clauses.
pub open spec fn empty_block_stmt(s: StatementKind, scopes: Seq<Scope>) -> bool {
    match s {
        StatementKind::If { condition, then_branch, else_branch } => plain_type(condition, scopes) is Some
            && then_branch.len() == 0 && (else_branch matches Some(v) ==> v.len() == 0),
        StatementKind::For { initializer, condition, post_operation, body } => initializer is None && condition is None
            && post_operation is None && body.len() == 0,
        _ => false,
    }
}

/// After a variable declaration, its name is bound to a mutable variable
/// that later statements see.
pub open spec fn declares(s: StatementKind, scopes: Seq<Scope>) -> bool {
    s matches StatementKind::VariableDeclaration(d) ==> (lookup_in(scopes, d.identifier@) matches Some(
        TypedSymbol::Binding(b),
    ) && b.mutable)
}

/// Forms rejected before anything in them is typed.
pub open spec fn stmt_rejected(s: StatementKind, loop_depth: usize, scopes: Seq<Scope>) -> bool {
    match s {
        StatementKind::Break | StatementKind::Continue => loop_depth == 0,
        StatementKind::Assignment { identifier, expr } => match lookup_in(scopes, identifier@) {
            Some(TypedSymbol::Binding(b)) => !b.mutable || rejected(expr, scopes),
            _ => true,
        },
        StatementKind::ExpressionStatement(e) => rejected(e, scopes),
        StatementKind::FieldAssign { object, .. } => rejected(object, scopes),
        StatementKind::DerefAssign { pointer, .. } => rejected(pointer, scopes),
        StatementKind::IndexAssign { object, .. } => rejected(object, scopes),
        StatementKind::Return(Some(es)) => exists|i: int| 0 <= i < es.len() && rejected(#[trigger] es@[i], scopes),
        StatementKind::If { condition, .. } => rejected(condition, scopes),
        StatementKind::Switch { subject, .. } => rejected(subject, scopes),
        StatementKind::VariableDeclaration(d) => (d.constant_type matches Some(t) && t.kind is TypeKeyword)
            || (d.constant_type is None && d.expression is None),
        _ => false,
    }
}

/// Type one statement. `loop_depth` counts the enclosing loops.
pub fn stmt_to_typed(
    stmt: Statement,
    scope: &mut SymbolTable,
    cache: &mut GenericCache,
    fuel: usize,
    loop_depth: usize,
) -> (r: Result<TypedStatement, AnalysisError>)
    requires
        old(cache).wf(),
        old(scope).scopes.len() > 0,
    ensures
        outer_kept(*old(scope), *final(scope)),
        final(cache).wf(),
        r is Ok ==> scope_kept(*old(scope), *final(scope)),
        r matches Ok(t) ==> stmt_typed_as(stmt.kind, loop_depth, old(scope).scopes@, t),
        stmt_rejected(stmt.kind, loop_depth, old(scope).scopes@) ==> r is Err,
        r is Ok ==> declares(stmt.kind, final(scope).scopes@),
        r matches Err(e) ==> e.span is Some,
        simple_stmt(stmt.kind, loop_depth, old(scope).scopes@) ==> r is Ok && *final(scope) == *old(scope) && *final(cache) == *old(cache),
        empty_block_stmt(stmt.kind, old(scope).scopes@) ==> r is Ok && final(scope).scopes@ == old(scope).scopes@,
        (stmt.kind is Break || stmt.kind is Continue) && loop_depth == 0 ==> (r matches Err(e) && e.message@ == outside_loop_text(stmt.kind)),
        stmt.kind matches StatementKind::Assignment { identifier, .. } ==> (assignment_refusal(identifier@, old(scope).scopes@) is Some
            ==> (r matches Err(e) && refusal_is(assignment_refusal(identifier@, old(scope).scopes@)->Some_0, e)
                && *final(scope) == *old(scope) && *final(cache) == *old(cache))),
        stmt.kind matches StatementKind::Return(Some(es)) ==> (es.len() > 0 ==> (es@[0].kind matches ExpressionKind::Identifier(name)
            ==> (lookup_in(old(scope).scopes@, name@) is None ==> (r matches Err(e) && e.message@ == unbound_text(name@)
            && e.span == Some(stmt.span))))),
        bare_loop(stmt.kind) ==> (r matches Ok(TypedStatement::For { body: b, .. }) && (stmt.kind matches StatementKind::For { body, .. } && jumps_typed(body@, b@))),
        stmt_error(stmt.kind, loop_depth, old(scope).scopes@) matches Some(m) ==> (r matches Err(e) && e.message@ == m
            && e.span == Some(stmt.span)),
        stmt.kind matches StatementKind::Switch { subject, arms } ==> (plain_type(subject, old(scope).scopes@) matches Some(st) ==> ((
            crate::frontend::analyze::types::resolved(old(scope).scopes@, st) matches TyV::Enum { variants: vs } ==> ((forall|i: int|
            0 <= i < arms.len() ==> arm_ready(vs, #[trigger] arms@[i], loop_depth)) ==> (r is Ok <==> src_exhaustive(vs, arms@))
            && (r matches Err(e) ==> e.message@ == switch_missing_text(vs, arms@)))) && (!(crate::frontend::analyze::types::resolved(
            old(scope).scopes@,
            st,
        ) is Enum) ==> (r matches Err(e) && e.message@ == "stmt_to_typed: switch subject is not an enum: "@ + type_text(
            crate::frontend::analyze::types::resolved(old(scope).scopes@, st),
        ))))),
    decreases fuel, 2nat, stmt,
{
    let span = stmt.span;
    match stmt_to_typed_inner(stmt.kind, scope, cache, fuel, loop_depth) {
        Ok(t) => Ok(t),
        Err(e) => Err(e.with_span_fallback(span)),
    }
}

/// Type each statement of a block in order.
pub fn stmts_to_typed(
    stmts: Vec<Statement>,
    scope: &mut SymbolTable,
    cache: &mut GenericCache,
    fuel: usize,
    loop_depth: usize,
) -> (r: Result<Vec<TypedStatement>, AnalysisError>)
    requires
        old(cache).wf(),
        old(scope).scopes.len() > 0,
    ensures
        outer_kept(*old(scope), *final(scope)),
        final(cache).wf(),
        r is Ok ==> scope_kept(*old(scope), *final(scope)),
        r matches Ok(v) ==> v.len() == stmts.len(),
        (forall|i: int| 0 <= i < stmts.len() ==> simple_stmt((#[trigger] stmts@[i]).kind, loop_depth, old(scope).scopes@))
            ==> r is Ok && *final(scope) == *old(scope) && *final(cache) == *old(cache),
        r matches Ok(v) ==> jumps_typed(stmts@, v@),
        r matches Ok(v) ==> block_shaped(stmts@, v@, loop_depth),
        (forall|i: int| 0 <= i < stmts.len() ==> simple_stmt((#[trigger] stmts@[i]).kind, loop_depth, old(scope).scopes@))
            ==> (r matches Ok(v) && forall|i: int| 0 <= i < stmts.len() ==> stmt_typed_as(stmts@[i].kind, loop_depth,
                old(scope).scopes@, #[trigger] v@[i])),
        forall|j: int| #[trigger] fails_at(stmts@, loop_depth, old(scope).scopes@, j) ==> (r matches Err(e)
            && e.message@ == stmt_error(stmts@[j].kind, loop_depth, old(scope).scopes@)->0 && e.span == Some(stmts@[j].span)),
    decreases fuel, 2nat, stmts,
{
    let n = stmts.len();
    let ghost orig = stmts;
    let mut rest = stmts;
    let mut out: Vec<TypedStatement> = Vec::new();
    let mut i: usize = 0;
    while i < n
        invariant
            n == orig.len(),
            0 <= i <= n,
            rest@ == orig@.subrange(i as int, n as int),
            out.len() == i,
            cache.wf(),
            scope_kept(*old(scope), *scope),
            old(scope).scopes.len() > 0,
            outer_kept(*old(scope), *scope),
            (forall|j: int| 0 <= j < n ==> simple_stmt((#[trigger] orig@[j]).kind, loop_depth, old(scope).scopes@))
                ==> *scope == *old(scope),
            jumps_typed(orig@.subrange(0, i as int), out@),
            (forall|j: int| 0 <= j < n ==> simple_stmt((#[trigger] orig@[j]).kind, loop_depth, old(scope).scopes@))
                ==> forall|j: int| 0 <= j < i ==> stmt_typed_as(orig@[j].kind, loop_depth, old(scope).scopes@, #[trigger] out@[j]),
            (forall|j: int| 0 <= j < i ==> simple_stmt((#[trigger] orig@[j]).kind, loop_depth, old(scope).scopes@))
                ==> *scope == *old(scope) && *cache == *old(cache),
            forall|j: int| 0 <= j < i ==> !#[trigger] fails_at(orig@, loop_depth, old(scope).scopes@, j),
            forall|j: int| 0 <= j < i ==> #[trigger] shape_typed(orig@[j].kind, out@[j], loop_depth),
        decreases n - i,
    {
        let s = rest.remove(0);
        proof {
            assert(s == orig@[i as int]);
            assert(decreases_to!(orig => orig@));
            assert(decreases_to!(orig@ => orig@[i as int]));
            assert(rest@ =~= orig@.subrange(i + 1, n as int));
        }
        let ghost prior = *scope;
        let t = match stmt_to_typed(s, scope, cache, fuel, loop_depth) {
            Ok(t) => t,
            Err(e) => {
                proof {
                    assert forall|j: int| #[trigger] fails_at(orig@, loop_depth, old(scope).scopes@, j) implies e.message@
                        == stmt_error(orig@[j].kind, loop_depth, old(scope).scopes@)->0 && e.span == Some(orig@[j].span) by {
                        if j > i {
                            assert(simple_stmt(orig@[i as int].kind, loop_depth, old(scope).scopes@));
                        } else if j == i {
                            assert(prior == *old(scope));
                        }
                    }
                }
                return Err(e);
            },
        };
        proof {
            if fails_at(orig@, loop_depth, old(scope).scopes@, i as int) {
                assert(prior == *old(scope));
            }
            assert forall|j: int| 0 <= j < i + 1 implies !#[trigger] fails_at(orig@, loop_depth, old(scope).scopes@, j) by {
                if j < i {
                    assert(!fails_at(orig@, loop_depth, old(scope).scopes@, j));
                }
            }
            if forall|j: int| 0 <= j < i + 1 ==> simple_stmt((#[trigger] orig@[j]).kind, loop_depth, old(scope).scopes@) {
                assert(prior == *old(scope));
                assert(simple_stmt(orig@[i as int].kind, loop_depth, old(scope).scopes@));
            }
        }
        proof {
            lemma_typed_shape(orig@[i as int].kind, loop_depth, prior.scopes@, t);
        }
        let ghost before = out@;
        out.push(t);
        proof {
            assert(orig@.subrange(0, i + 1) =~= orig@.subrange(0, i as int).push(s));
            assert(out@ == before.push(t));
            assert forall|j: int| 0 <= j < i + 1 implies #[trigger] shape_typed(orig@[j].kind, out@[j], loop_depth) by {
                if j < i {
                    assert(out@[j] == before[j]);
                }
            }
        }
        i = i + 1;
    }
    proof { assert(orig@.subrange(0, n as int) =~= orig@); }
    Ok(out)
}

fn not_found(prefix: &str, name: &Identifier, suffix: &str) -> (e: AnalysisError)
    ensures
        e.kind == ErrorKind::Type,
        e.span is None,
        e.hint is None,
        e.message@ == prefix@ + name@ + suffix@,
{
    AnalysisError::from_message(message3(prefix, name.value.as_str(), suffix))
}

#[verifier::spinoff_prover]
#[verifier::rlimit(40)]
fn stmt_to_typed_inner(
    kind: StatementKind,
    scope: &mut SymbolTable,
    cache: &mut GenericCache,
    fuel: usize,
    loop_depth: usize,
) -> (r: Result<TypedStatement, AnalysisError>)
    requires
        old(cache).wf(),
        old(scope).scopes.len() > 0,
    ensures
        outer_kept(*old(scope), *final(scope)),
        final(cache).wf(),
        r is Ok ==> scope_kept(*old(scope), *final(scope)),
        r matches Ok(t) ==> stmt_typed_as(kind, loop_depth, old(scope).scopes@, t),
        stmt_rejected(kind, loop_depth, old(scope).scopes@) ==> r is Err,
        r is Ok ==> declares(kind, final(scope).scopes@),
        simple_stmt(kind, loop_depth, old(scope).scopes@) ==> r is Ok && *final(scope) == *old(scope) && *final(cache) == *old(cache),
        empty_block_stmt(kind, old(scope).scopes@) ==> r is Ok && final(scope).scopes@ == old(scope).scopes@,
        (kind is Break || kind is Continue) && loop_depth == 0 ==> (r matches Err(e) && e.message@ == outside_loop_text(kind)
            && e.span is None),
        kind matches StatementKind::Assignment { identifier, .. } ==> (assignment_refusal(identifier@, old(scope).scopes@) is Some
            ==> (r matches Err(e) && refusal_is(assignment_refusal(identifier@, old(scope).scopes@)->Some_0, e)
                && e.span is None && *final(scope) == *old(scope) && *final(cache) == *old(cache))),
        kind matches StatementKind::Return(Some(es)) ==> (es.len() > 0 ==> (es@[0].kind matches ExpressionKind::Identifier(name)
            ==> (lookup_in(old(scope).scopes@, name@) is None ==> (r matches Err(e) && e.message@ == unbound_text(name@)
            && e.span is None)))),
        bare_loop(kind) ==> (r matches Ok(TypedStatement::For { body: b, .. }) && (kind matches StatementKind::For { body, .. } && jumps_typed(body@, b@))),
        kind matches StatementKind::Switch { subject, arms } ==> (plain_type(subject, old(scope).scopes@) matches Some(st) ==> ((
            crate::frontend::analyze::types::resolved(old(scope).scopes@, st) matches TyV::Enum { variants: vs } ==> ((forall|i: int|
            0 <= i < arms.len() ==> arm_ready(vs, #[trigger] arms@[i], loop_depth)) ==> (r is Ok <==> src_exhaustive(vs, arms@))
            && (r matches Err(e) ==> e.message@ == switch_missing_text(vs, arms@)))) && (!(crate::frontend::analyze::types::resolved(
            old(scope).scopes@,
            st,
        ) is Enum) ==> (r matches Err(e) && e.message@ == "stmt_to_typed: switch subject is not an enum: "@ + type_text(
            crate::frontend::analyze::types::resolved(old(scope).scopes@, st),
        ))))),
    decreases fuel, 2nat, kind,
{
    let ghost k0 = kind;
    match kind {
        StatementKind::VariableDeclaration(d) => {
            let b = var_decl_to_typed(d, scope, cache, fuel)?;
            Ok(TypedStatement::Binding(b))
        },
        StatementKind::Assignment { identifier, expr } => {
            let target_ty = match scope.lookup(&identifier) {
                Some(TypedSymbol::Binding(b)) => {
                    if !b.mutable {
                        return Err(not_found("cannot assign to constant '", &identifier, "'").with_hint(
                            "declare the binding with `var` to make it mutable",
                        ));
                    }
                    b.ty.copy()
                },
                Some(_) => {
                    return Err(not_found("cannot assign to '", &identifier, "': not a variable"));
                },
                None => {
                    return Err(not_found("assignment to undeclared variable '", &identifier, "'"));
                },
            };
            let e = expr_to_typed(expr, scope, cache, fuel)?;
            let mut what = str_to_string("'");
            push_str(&mut what, identifier.value.as_str());
            push_str(&mut what, "' of type ");
            push_str(&mut what, describe_type(&target_ty).as_str());
            let e = check_assignable(&target_ty, e, scope, what.as_str())?;
            let res = TypedStatement::Assign { name: identifier, expr: e };
            Ok(res)
        },
        StatementKind::FieldAssign { object, field, expr } => {
            let immutable = match &object.kind {
                ExpressionKind::Identifier(id) => match scope.lookup(id) {
                    Some(TypedSymbol::Binding(b)) => !b.mutable,
                    _ => false,
                },
                _ => false,
            };
            if immutable {
                return Err(AnalysisError::from_str("cannot assign to field of constant"));
            }
            let obj = expr_to_typed(object, scope, cache, fuel)?;
            let is_struct_like = match &obj.inferred_type {
                Ty::Struct { .. } | Ty::Identifier(_) => true,
                _ => false,
            };
            if !is_struct_like {
                return Err(AnalysisError::from_message(message3(
                    "field assignment target is not a struct: ",
                    describe_type(&obj.inferred_type).as_str(),
                    "",
                )));
            }
            let fields = match resolve_struct_fields(&obj.inferred_type, scope) {
                Some(fs) => fs,
                None => {
                    return Err(AnalysisError::from_message(message3(
                        "type ",
                        describe_type(&obj.inferred_type).as_str(),
                        " is not a struct type",
                    )));
                },
            };
            let mut idx: Option<usize> = None;
            let mut i: usize = 0;
            while i < fields.len()
                invariant
                    0 <= i <= fields.len(),
                    idx matches Some(k) ==> k < fields.len() && fields@[k as int].0@ == field@,
                decreases fields.len() - i,
            {
                if str_eq(fields[i].0.as_str(), field.value.as_str()) {
                    idx = Some(i);
                    break;
                }
                i = i + 1;
            }
            let field_index = match idx {
                Some(k) => k,
                None => {
                    return Err(not_found("field ", &field, " not found in struct"));
                },
            };
            let field_ty = fields[field_index].1.copy();
            proof {
                lemma_fields_view(fields@);
                assert(fields_view(fields@)[field_index as int] == (fields@[field_index as int].0@, fields@[field_index as int].1@));
            }
            let e = expr_to_typed(expr, scope, cache, fuel)?;
            let mut what = str_to_string("field '");
            push_str(&mut what, field.value.as_str());
            push_str(&mut what, "' of type ");
            push_str(&mut what, describe_type(&field_ty).as_str());
            let e = check_assignable(&field_ty, e, scope, what.as_str())?;
            let res = TypedStatement::FieldAssign { object: obj, field: field.value, field_index, expr: e };
            Ok(res)
        },
        StatementKind::ExpressionStatement(e) => {
            let t = expr_to_typed(e, scope, cache, fuel)?;
            Ok(TypedStatement::Expr(t))
        },
        StatementKind::MultiAssignment { targets, values } => {
            let nt = targets.len();
            let ghost tgs = targets;
            let mut rest = targets;
            let mut typed_targets: Vec<TypedExpr> = Vec::new();
            let mut i: usize = 0;
            while i < nt
                invariant
                    nt == tgs.len(),
                    0 <= i <= nt,
                    rest@ == tgs@.subrange(i as int, nt as int),
                    typed_targets.len() == i,
                    forall|j: int| 0 <= j < i ==> typed_as(tgs@[j], scope.scopes@, #[trigger] typed_targets@[j])
                        && valid_target(tgs@[j], scope.scopes@),
                    cache.wf(),
                decreases nt - i,
            {
                let t = rest.remove(0);
                proof {
                    assert(t == tgs@[i as int]);
                    assert(decreases_to!(tgs => tgs@));
                    assert(decreases_to!(tgs@ => tgs@[i as int]));
                    assert(rest@ =~= tgs@.subrange(i + 1, nt as int));
                }
                validate_assignment_target(&t, scope)?;
                let ghost te = t;
                let typed_t = expr_to_typed(t, scope, cache, fuel)?;
                let ghost before = typed_targets@;
                typed_targets.push(typed_t);
                proof {
                    assert(typed_as(te, scope.scopes@, typed_t));
                    assert forall|j: int| 0 <= j < i + 1 implies typed_as(tgs@[j], scope.scopes@, #[trigger] typed_targets@[j])
                        && valid_target(tgs@[j], scope.scopes@) by {
                        if j < i {
                            assert(typed_targets@[j] == before[j]);
                        }
                    }
                }
                i = i + 1;
            }
            let typed_values = exprs_to_typed(values, scope, cache, fuel)?;
            validate_multi_assignment_shape(&typed_targets, &typed_values)?;
            let res = TypedStatement::MultiAssign { targets: typed_targets, values: typed_values };
            Ok(res)
        },
        StatementKind::MultiVariableDeclaration { identifiers, values } => {
            let typed_values = exprs_to_typed(values, scope, cache, fuel)?;
            multi_var_decl_to_typed(identifiers, typed_values, scope)
        },
        StatementKind::Return(opt) => match opt {
            Some(exprs) => {
                let values = exprs_to_typed(exprs, scope, cache, fuel)?;
                Ok(TypedStatement::Return(Some(TypedReturn { values })))
            },
            None => Ok(TypedStatement::Return(None)),
        },
        StatementKind::If { condition, then_branch, else_branch } => {
            let cond = expr_to_typed(condition, scope, cache, fuel)?;
            proof { assert(decreases_to!(k0 => then_branch)); }
            let ghost outer = scope.scopes@;
            scope.enter_scope(ScopeKind::Block);
            proof { assert(scope.scopes@.drop_last() =~= outer); }
            let then_h = stmts_to_typed(then_branch, scope, cache, fuel, loop_depth)?;
            scope.exit_scope();
            let else_h = match else_branch {
                Some(v) => {
                    proof { assert(decreases_to!(k0 => v)); }
                    scope.enter_scope(ScopeKind::Block);
                    proof { assert(scope.scopes@.drop_last() =~= outer); }
                    let e = stmts_to_typed(v, scope, cache, fuel, loop_depth)?;
                    scope.exit_scope();
                    Some(e)
                },
                None => None,
            };
            let res = TypedStatement::If(TypedIf { cond, then_branch: then_h, else_branch: else_h });
            Ok(res)
        },
        StatementKind::For { initializer, condition, post_operation, body } => {
            let ghost outer = scope.scopes@;
            scope.enter_scope(ScopeKind::Block);
            proof { assert(scope.scopes@.drop_last() =~= outer); }
            let init_h = match initializer {
                Some(b) => {
                    proof { assert(decreases_to!(k0 => *b)); }
                    let ghost sc = scope.scopes@;
                    let ghost bk = b.kind;
                    let t = stmt_to_typed(*b, scope, cache, fuel, loop_depth)?;
                    proof { lemma_typed_shape(bk, loop_depth, sc, t); }
                    Some(Box::new(t))
                },
                None => None,
            };
            let cond_h = match condition {
                Some(e) => {
                    let ghost sc = scope.scopes@;
                    let ghost e0 = e;
                    let t = expr_to_typed(e, scope, cache, fuel)?;
                    proof { assert(typed_as(e0, sc, t)); }
                    Some(t)
                },
                None => None,
            };
            let post_h = match post_operation {
                Some(b) => {
                    proof { assert(decreases_to!(k0 => *b)); }
                    let ghost sc = scope.scopes@;
                    let ghost bk = b.kind;
                    let t = stmt_to_typed(*b, scope, cache, fuel, loop_depth)?;
                    proof { lemma_typed_shape(bk, loop_depth, sc, t); }
                    Some(Box::new(t))
                },
                None => None,
            };
            let inner_depth = if loop_depth < usize::MAX { loop_depth + 1 } else { loop_depth };
            proof { assert(decreases_to!(k0 => body)); }
            let body_h = stmts_to_typed(body, scope, cache, fuel, inner_depth)?;
            scope.exit_scope();
            Ok(TypedStatement::For { init: init_h, cond: cond_h, post: post_h, body: body_h })
        },
        StatementKind::DerefAssign { pointer, expr } => {
            let ptr = expr_to_typed(pointer, scope, cache, fuel)?;
            let pointee = match &ptr.inferred_type {
                Ty::Pointer(p) => (**p).copy(),
                other => {
                    return Err(AnalysisError::from_message(message3(
                        "dereference assignment through non-pointer type ",
                        describe_type(other).as_str(),
                        "",
                    )));
                },
            };
            let val = expr_to_typed(expr, scope, cache, fuel)?;
            let mut what = str_to_string("pointee of type ");
            push_str(&mut what, describe_type(&pointee).as_str());
            push_str(&mut what, " through pointer");
            let val = check_assignable(&pointee, val, scope, what.as_str())?;
            let res = TypedStatement::DerefAssign { pointer: ptr, expr: val };
            Ok(res)
        },
        StatementKind::IndexAssign { object, index, expr } => {
            let obj = expr_to_typed(object, scope, cache, fuel)?;
            let elem = match &obj.inferred_type {
                Ty::Pointer(p) => (**p).copy(),
                Ty::Array { element_type, .. } => (**element_type).copy(),
                other => {
                    return Err(AnalysisError::from_message(message3(
                        "index assignment on non-pointer type ",
                        describe_type(other).as_str(),
                        "",
                    )));
                },
            };
            let idx = expr_to_typed(index, scope, cache, fuel)?;
            require_integer_index(&idx.inferred_type, "index assignment")?;
            let val = expr_to_typed(expr, scope, cache, fuel)?;
            let mut what = str_to_string("array element of type ");
            push_str(&mut what, describe_type(&elem).as_str());
            let val = check_assignable(&elem, val, scope, what.as_str())?;
            let res = TypedStatement::IndexAssign { object: obj, index: idx, expr: val };
            Ok(res)
        },
        StatementKind::Break => {
            if loop_depth == 0 {
                return Err(AnalysisError::from_str("`break` is only allowed inside a loop"));
            }
            Ok(TypedStatement::Break)
        },
        StatementKind::Continue => {
            if loop_depth == 0 {
                return Err(AnalysisError::from_str("`continue` is only allowed inside a loop"));
            }
            Ok(TypedStatement::Continue)
        },
        StatementKind::Defer(inner) => {
            proof { assert(decreases_to!(k0 => *inner)); }
            let t = stmt_to_typed(*inner, scope, cache, fuel, loop_depth)?;
            Ok(TypedStatement::Defer(Box::new(t)))
        },
        StatementKind::Switch { subject, arms } => {
            let subj = expr_to_typed(subject, scope, cache, fuel)?;
            proof { assert(decreases_to!(k0 => arms)); }
            switch_to_typed(subj, arms, scope, cache, fuel, loop_depth)
        },
    }
}

/// Type each expression of a list in order.
fn exprs_to_typed(v: Vec<Expression>, scope: &SymbolTable, cache: &mut GenericCache, fuel: usize) -> (r: Result<Vec<TypedExpr>, AnalysisError>)
    requires
        old(cache).wf(),
        scope.scopes.len() > 0,
    ensures
        final(cache).wf(),
        r matches Ok(t) ==> t.len() == v.len() && forall|i: int| 0 <= i < v.len() ==> typed_as(v@[i], scope.scopes@, #[trigger] t@[i]),
        (exists|i: int| 0 <= i < v.len() && rejected(#[trigger] v@[i], scope.scopes@)) ==> r is Err,
        (forall|i: int| 0 <= i < v.len() ==> plain_type(#[trigger] v@[i], scope.scopes@) is Some) ==> r is Ok
            && *final(cache) == *old(cache),
        v.len() > 0 ==> (v@[0].kind matches ExpressionKind::Identifier(name) ==> (lookup_in(scope.scopes@, name@) is None
            ==> (r matches Err(e) && e.message@ == unbound_text(name@) && e.span is None))),
    decreases fuel, 1nat, v,
{
    let n = v.len();
    let ghost orig = v;
    let mut rest = v;
    let mut out: Vec<TypedExpr> = Vec::new();
    let mut i: usize = 0;
    while i < n
        invariant
            n == orig.len(),
            0 <= i <= n,
            rest@ == orig@.subrange(i as int, n as int),
            out.len() == i,
            forall|j: int| 0 <= j < i ==> typed_as(orig@[j], scope.scopes@, #[trigger] out@[j]),
            forall|j: int| 0 <= j < i ==> !rejected(#[trigger] orig@[j], scope.scopes@),
            cache.wf(),
            (forall|j: int| 0 <= j < n ==> plain_type(#[trigger] orig@[j], scope.scopes@) is Some) ==> *cache == *old(cache),
        decreases n - i,
    {
        let x = rest.remove(0);
        proof {
            assert(x == orig@[i as int]);
            assert(decreases_to!(orig => orig@));
            assert(decreases_to!(orig@ => orig@[i as int]));
            assert(rest@ =~= orig@.subrange(i + 1, n as int));
        }
        out.push(expr_to_typed(x, scope, cache, fuel)?);
        i = i + 1;
    }
    Ok(out)
}

/// `switch`: the subject must be an enum, each arm names one of its variants
/// (binding the payload, if any, as a struct inside the arm), and without a
/// `_` arm every variant must be covered.
fn switch_to_typed(
    subj: TypedExpr,
    arms: Vec<SwitchArm>,
    scope: &mut SymbolTable,
    cache: &mut GenericCache,
    fuel: usize,
    loop_depth: usize,
) -> (r: Result<TypedStatement, AnalysisError>)
    requires
        old(cache).wf(),
        old(scope).scopes.len() > 0,
    ensures
        outer_kept(*old(scope), *final(scope)),
        final(cache).wf(),
        r is Ok ==> scope_kept(*old(scope), *final(scope)),
        r matches Ok(t) ==> (t matches TypedStatement::Switch { subject: s, arms: a } && s == subj && a.len() == arms.len()
            && (crate::frontend::analyze::types::resolved(old(scope).scopes@, subj.inferred_type@) matches TyV::Enum { variants: vs }
                && exhaustive(vs, a@)) && forall|i: int| 0 <= i < arms.len() ==> block_shaped(
                arms@[i].body@,
                (#[trigger] a@[i]).body@,
                loop_depth,
            )),
        !(crate::frontend::analyze::types::resolved(old(scope).scopes@, subj.inferred_type@) is Enum) ==> (r matches Err(e)
            && e.message@ == "stmt_to_typed: switch subject is not an enum: "@
                + type_text(crate::frontend::analyze::types::resolved(old(scope).scopes@, subj.inferred_type@))),
        crate::frontend::analyze::types::resolved(old(scope).scopes@, subj.inferred_type@) is Enum && arms.len() > 0
            && (forall|i: int| 0 <= i < arms.len() ==> (#[trigger] arms@[i]).pattern is Wildcard && arms@[i].body.len() == 0)
            ==> r is Ok,
        crate::frontend::analyze::types::resolved(old(scope).scopes@, subj.inferred_type@) matches TyV::Enum { variants: vs }
            ==> ((forall|i: int| 0 <= i < arms.len() ==> arm_ready(vs, #[trigger] arms@[i], loop_depth)) ==> (r is Ok
            <==> src_exhaustive(vs, arms@)) && (r matches Err(e) ==> e.message@ == switch_missing_text(vs, arms@))),
    decreases fuel, 2nat, arms,
{
    let ghost all_wild = arms.len() > 0 && (forall|i: int| 0 <= i < arms.len() ==> (#[trigger] arms@[i]).pattern is Wildcard
        && arms@[i].body.len() == 0);
    let resolved = resolve_type_alias(&subj.inferred_type, scope);
    let variants = match resolved {
        Ty::Enum { variants } => variants,
        other => {
            proof { reveal_strlit(""); }
            let m = message3("stmt_to_typed: switch subject is not an enum: ", describe_type(&other).as_str(), "");
            proof { assert(m@ =~= "stmt_to_typed: switch subject is not an enum: "@ + type_text(other@)); }
            return Err(AnalysisError::from_message(m));
        },
    };
    let ghost vs = variants_view(variants@);
    proof { lemma_variants_view(variants@); }
    let ghost ready = forall|i: int| 0 <= i < arms.len() ==> arm_ready(vs, #[trigger] arms@[i], loop_depth);
    let n = arms.len();
    let ghost orig = arms;
    let ghost before = *scope;
    let mut rest = arms;
    let mut typed_arms: Vec<TypedSwitchArm> = Vec::new();
    let mut i: usize = 0;
    while i < n
        invariant
            n == orig.len(),
            0 <= i <= n,
            rest@ == orig@.subrange(i as int, n as int),
            typed_arms.len() == i,
            all_wild ==> forall|j: int| 0 <= j < i ==> (#[trigger] typed_arms@[j]).pattern is Wildcard,
            cache.wf(),
            scope.scopes@ == before.scopes@,
            scope.modules == before.modules,
            before.scopes.len() > 0,
            forall|j: int| 0 <= j < i ==> block_shaped(orig@[j].body@, (#[trigger] typed_arms@[j]).body@, loop_depth),
            forall|j: int| 0 <= j < i ==> arm_matches(vs, orig@[j].pattern, (#[trigger] typed_arms@[j]).pattern),
            vs == variants_view(variants@),
            vs.len() == variants.len(),
            forall|j: int| 0 <= j < variants.len() ==> #[trigger] vs[j] == variant_view(&variants@[j]),
            ready == forall|q: int| 0 <= q < orig.len() ==> arm_ready(vs, #[trigger] orig@[q], loop_depth),
        decreases n - i,
    {
        let arm = rest.remove(0);
        proof {
            assert(arm == orig@[i as int]);
            assert(decreases_to!(orig => orig@));
            assert(decreases_to!(orig@ => orig@[i as int]));
            assert(decreases_to!(orig@[i as int] => orig@[i as int].body));
            assert(rest@ =~= orig@.subrange(i + 1, n as int));
        }
        let (pattern, arm_binding) = match arm.pattern {
            Pattern::Wildcard => (TypedPattern::Wildcard, None),
            Pattern::EnumVariant { variant, binding } => {
                let mut found: Option<usize> = None;
                let mut k: usize = 0;
                while k < variants.len()
                    invariant
                        0 <= k <= variants.len(),
                        found matches Some(j) ==> is_first_named(vs, variant@, j as int),
                        found is None ==> forall|q: int| 0 <= q < k ==> (#[trigger] vs[q]).name != variant@,
                        vs.len() == variants.len(),
                        forall|j: int| 0 <= j < variants.len() ==> #[trigger] vs[j] == variant_view(&variants@[j]),
                    decreases variants.len() - k,
                {
                    if found.is_none() && str_eq(variants[k].name.as_str(), variant.value.as_str()) {
                        found = Some(k);
                    }
                    k = k + 1;
                }
                let k = match found {
                    Some(k) => k,
                    None => {
                        proof {
                            if ready {
                                assert(arm_ready(vs, orig@[i as int], loop_depth));
                            }
                        }
                        return Err(not_found("enum has no variant '", &variant, "' in switch arm"));
                    },
                };
                let payload_ty: Option<Ty> = match &variants[k].payload {
                    Some(fields) => Some(Ty::Struct { fields: copy_fields(fields) }),
                    None => None,
                };
                let arm_binding: Option<(Identifier, Ty)> = match (&binding, &payload_ty) {
                    (Some(b), Some(t)) => Some((b.copy(), t.copy())),
                    (Some(_), None) => {
                        proof {
                            if ready {
                                assert(arm_ready(vs, orig@[i as int], loop_depth));
                                assert(is_first_named(vs, variant@, k as int));
                            }
                        }
                        return Err(not_found("switch arm: variant '", &variant, "' has no payload but a binding was supplied"));
                    },
                    _ => None,
                };
                proof {
                    assert(is_first_named(vs, variant@, k as int));
                }
                (
                    TypedPattern::EnumVariant {
                        variant: variants[k].name.clone(),
                        discriminant: variants[k].discriminant,
                        binding,
                        payload_ty,
                    },
                    arm_binding,
                )
            },
        };
        scope.enter_scope(ScopeKind::Block);
        proof { assert(scope.scopes@.drop_last() =~= before.scopes@); }
        match arm_binding {
            Some((bind_id, payload_ty)) => {
                scope.insert(
                    bind_id.copy(),
                    TypedSymbol::Binding(TypedBinding { name: bind_id, ty: payload_ty, init: None, mutable: false }),
                );
            },
            None => {},
        }
        proof {
            assert(arm_matches(vs, orig@[i as int].pattern, pattern));
            if ready {
                assert(arm_ready(vs, orig@[i as int], loop_depth));
                assert forall|q: int| 0 <= q < arm.body.len() implies simple_stmt((#[trigger] arm.body@[q]).kind, loop_depth,
                    scope.scopes@) by {
                    assert(flat_stmt(arm.body@[q].kind, loop_depth));
                }
            }
        }
        let body = stmts_to_typed(arm.body, scope, cache, fuel, loop_depth)?;
        scope.exit_scope();
        let ghost prev = typed_arms@;
        typed_arms.push(TypedSwitchArm { pattern, body });
        proof {
            assert forall|j: int| 0 <= j < i + 1 implies arm_matches(vs, orig@[j].pattern, (#[trigger] typed_arms@[j]).pattern) by {
                if j < i {
                    assert(typed_arms@[j] == prev[j]);
                }
            }
            assert forall|j: int| 0 <= j < i + 1 implies block_shaped(orig@[j].body@, (#[trigger] typed_arms@[j]).body@, loop_depth) by {
                if j < i {
                    assert(typed_arms@[j] == prev[j]);
                }
            }
        }
        i = i + 1;
    }
    proof {
        if all_wild {
            assert(typed_arms@[0].pattern is Wildcard);
            assert(has_wildcard_arm(typed_arms@));
        }
    }
    proof {
        lemma_same_cover(vs, orig@, typed_arms@);
        lemma_same_missing(vs, vs, orig@, typed_arms@);
    }
    check_exhaustive(&variants, &typed_arms)?;
    Ok(TypedStatement::Switch { subject: subj, arms: typed_arms })
}

/// Some arm of `arms` matches every value.
pub open spec fn has_wildcard_arm(arms: Seq<TypedSwitchArm>) -> bool {
    exists|a: int| 0 <= a < arms.len() && (#[trigger] arms[a]).pattern is Wildcard
}

/// Some arm of `arms` matches the variant with discriminant `d`.
pub open spec fn covers(arms: Seq<TypedSwitchArm>, d: u32) -> bool {
    exists|a: int| 0 <= a < arms.len() && ((#[trigger] arms[a]).pattern matches TypedPattern::EnumVariant { discriminant, .. }
        && discriminant == d)
}

/// The names of the variants of `vs` that no arm of `arms` covers, in order.
pub open spec fn missing_variants(vs: Seq<VariantV>, arms: Seq<TypedSwitchArm>) -> Seq<Seq<char>>
    decreases vs.len(),
{
    if vs.len() == 0 {
        Seq::empty()
    } else if covers(arms, vs.last().discriminant) {
        missing_variants(vs.drop_last(), arms)
    } else {
        missing_variants(vs.drop_last(), arms).push(vs.last().name)
    }
}

/// The arms of a `switch` over an enum with variants `vs` are exhaustive:
/// one is a wildcard, or every variant is covered.
pub open spec fn exhaustive(vs: Seq<VariantV>, arms: Seq<TypedSwitchArm>) -> bool {
    has_wildcard_arm(arms) || missing_variants(vs, arms).len() == 0
}

/// The message of a `switch` over an enum with variants `vs` whose arms
/// leave some of them out.
pub open spec fn not_exhaustive_text(vs: Seq<VariantV>, arms: Seq<TypedSwitchArm>) -> Seq<char> {
    "switch on enum is not exhaustive: missing variant(s) "@ + joined_text(missing_variants(vs, arms), ", "@)
        + " (add `when _` or cover them)"@
}

/// `k` is the first variant of `vs` named `n`.
pub open spec fn is_first_named(vs: Seq<VariantV>, n: Seq<char>, k: int) -> bool {
    &&& 0 <= k < vs.len()
    &&& vs[k].name == n
    &&& forall|j: int| 0 <= j < k ==> (#[trigger] vs[j]).name != n
}

/// The typed pattern `tp` is the pattern `p` over the variants `vs`: `_`
/// stays `_`, and a variant name becomes the first variant of that name.
pub open spec fn arm_matches(vs: Seq<VariantV>, p: Pattern, tp: TypedPattern) -> bool {
    match p {
        Pattern::Wildcard => tp is Wildcard,
        Pattern::EnumVariant { variant, .. } => tp matches TypedPattern::EnumVariant { discriminant, .. } && exists|k: int|
            #[trigger] is_first_named(vs, variant@, k) && discriminant == vs[k].discriminant,
    }
}

/// Some arm of `arms` names a variant of `vs` whose discriminant is `d`.
pub open spec fn src_covers(vs: Seq<VariantV>, arms: Seq<SwitchArm>, d: u32) -> bool {
    exists|a: int, k: int| #![trigger arms[a], vs[k]] 0 <= a < arms.len() && arm_variant(arms[a].pattern) == Some(vs[k].name)
        && is_first_named(vs, vs[k].name, k) && vs[k].discriminant == d
}

/// The variant name a pattern gives, if any.
pub open spec fn arm_variant(p: Pattern) -> Option<Seq<char>> {
    match p {
        Pattern::EnumVariant { variant, .. } => Some(variant@),
        Pattern::Wildcard => None,
    }
}

/// The names of the variants of `part` (a prefix of `all`) that no arm of
/// `arms` names, in order.
pub open spec fn src_missing(all: Seq<VariantV>, part: Seq<VariantV>, arms: Seq<SwitchArm>) -> Seq<Seq<char>>
    decreases part.len(),
{
    if part.len() == 0 {
        Seq::empty()
    } else if src_covers(all, arms, part.last().discriminant) {
        src_missing(all, part.drop_last(), arms)
    } else {
        src_missing(all, part.drop_last(), arms).push(part.last().name)
    }
}

/// A `switch` over the variants `vs` covers them all: it has a `_` arm, or
/// no variant is left out.
pub open spec fn src_exhaustive(vs: Seq<VariantV>, arms: Seq<SwitchArm>) -> bool {
    (exists|a: int| 0 <= a < arms.len() && (#[trigger] arms[a]).pattern is Wildcard) || src_missing(vs, vs, arms).len() == 0
}

/// The message of a `switch` over the variants `vs` that leaves some out.
pub open spec fn switch_missing_text(vs: Seq<VariantV>, arms: Seq<SwitchArm>) -> Seq<char> {
    "switch on enum is not exhaustive: missing variant(s) "@ + joined_text(src_missing(vs, vs, arms), ", "@)
        + " (add `when _` or cover them)"@
}

/// A statement of a `switch` arm that types in any scope: a jump inside a
/// loop, or a `return` with no value.
pub open spec fn flat_stmt(s: StatementKind, loop_depth: usize) -> bool {
    ||| (s is Break || s is Continue) && loop_depth > 0
    ||| s == StatementKind::Return(None)
}

/// An arm whose pattern names a variant of `vs` (binding a payload only
/// where the variant has one) or is `_`, and whose body is flat.
pub open spec fn arm_ready(vs: Seq<VariantV>, arm: SwitchArm, loop_depth: usize) -> bool {
    &&& match arm.pattern {
        Pattern::Wildcard => true,
        Pattern::EnumVariant { variant, binding } => exists|k: int| #[trigger] is_first_named(vs, variant@, k)
            && (binding is Some ==> vs[k].payload is Some),
    }
    &&& forall|i: int| 0 <= i < arm.body.len() ==> flat_stmt((#[trigger] arm.body@[i]).kind, loop_depth)
}

/// Arms typed pattern by pattern cover what their source arms name.
proof fn lemma_same_cover(vs: Seq<VariantV>, arms: Seq<SwitchArm>, typed: Seq<TypedSwitchArm>)
    requires
        typed.len() == arms.len(),
        forall|j: int| 0 <= j < arms.len() ==> arm_matches(vs, arms[j].pattern, (#[trigger] typed[j]).pattern),
    ensures
        forall|d: u32| covers(typed, d) <==> #[trigger] src_covers(vs, arms, d),
        has_wildcard_arm(typed) <==> exists|a: int| 0 <= a < arms.len() && (#[trigger] arms[a]).pattern is Wildcard,
{
    assert forall|d: u32| covers(typed, d) <==> #[trigger] src_covers(vs, arms, d) by {
        if covers(typed, d) {
            let a = choose|a: int| 0 <= a < typed.len() && ((#[trigger] typed[a]).pattern matches TypedPattern::EnumVariant {
                discriminant,
                ..
            } && discriminant == d);
            assert(arm_matches(vs, arms[a].pattern, typed[a].pattern));
            if let Pattern::EnumVariant { variant, .. } = arms[a].pattern {
                let k = choose|k: int| #[trigger] is_first_named(vs, variant@, k) && typed[a].pattern->discriminant == vs[k].discriminant;
                assert(arm_variant(arms[a].pattern) == Some(vs[k].name) && is_first_named(vs, vs[k].name, k)
                    && vs[k].discriminant == d);
            }
        }
        if src_covers(vs, arms, d) {
            let (a, k) = choose|a: int, k: int| #![trigger arms[a], vs[k]] 0 <= a < arms.len() && arm_variant(arms[a].pattern)
                == Some(vs[k].name) && is_first_named(vs, vs[k].name, k) && vs[k].discriminant == d;
            assert(arm_matches(vs, arms[a].pattern, typed[a].pattern));
            if let Pattern::EnumVariant { variant, .. } = arms[a].pattern {
                let k2 = choose|k2: int| #[trigger] is_first_named(vs, variant@, k2) && typed[a].pattern->discriminant
                    == vs[k2].discriminant;
                if k2 < k {
                    assert(vs[k2].name == variant@);
                } else if k < k2 {
                    assert(vs[k].name == variant@);
                }
                assert(typed[a].pattern matches TypedPattern::EnumVariant { discriminant, .. } && discriminant == d);
            }
        }
    }
    if has_wildcard_arm(typed) {
        let a = choose|a: int| 0 <= a < typed.len() && (#[trigger] typed[a]).pattern is Wildcard;
        assert(arm_matches(vs, arms[a].pattern, typed[a].pattern));
    }
    if exists|a: int| 0 <= a < arms.len() && (#[trigger] arms[a]).pattern is Wildcard {
        let a = choose|a: int| 0 <= a < arms.len() && (#[trigger] arms[a]).pattern is Wildcard;
        assert(arm_matches(vs, arms[a].pattern, typed[a].pattern));
    }
}

/// The variants left out are the same, counted on the source arms or on
/// their typed patterns.
proof fn lemma_same_missing(all: Seq<VariantV>, part: Seq<VariantV>, arms: Seq<SwitchArm>, typed: Seq<TypedSwitchArm>)
    requires
        forall|d: u32| covers(typed, d) <==> #[trigger] src_covers(all, arms, d),
    ensures
        missing_variants(part, typed) == src_missing(all, part, arms),
    decreases part.len(),
{
    if part.len() > 0 {
        lemma_same_missing(all, part.drop_last(), arms, typed);
        assert(covers(typed, part.last().discriminant) <==> src_covers(all, arms, part.last().discriminant));
    }
}

/// The exhaustiveness check of a `switch` over an enum with `variants`.
pub fn check_exhaustive(variants: &Vec<TypedEnumVariant>, arms: &Vec<TypedSwitchArm>) -> (r: Result<(), AnalysisError>)
    ensures
        r is Ok <==> exhaustive(variants_view(variants@), arms@),
        r matches Err(e) ==> e.message@ == not_exhaustive_text(variants_view(variants@), arms@),
{
    let ghost vs = variants_view(variants@);
    proof { lemma_variants_view(variants@); }
    let mut has_wildcard = false;
    let mut a: usize = 0;
    while a < arms.len()
        invariant
            a <= arms.len(),
            has_wildcard <==> exists|b: int| 0 <= b < a && (#[trigger] arms@[b]).pattern is Wildcard,
        decreases arms.len() - a,
    {
        match arms[a].pattern {
            TypedPattern::Wildcard => {
                has_wildcard = true;
            },
            _ => {},
        }
        a = a + 1;
    }
    if has_wildcard {
        return Ok(());
    }
    let mut missing = str_to_string("");
    let mut any_missing = false;
    let mut v: usize = 0;
    proof {
        reveal_strlit("");
        assert(vs.subrange(0, 0) =~= Seq::<VariantV>::empty());
    }
    while v < variants.len()
        invariant
            v <= variants.len(),
            vs == variants_view(variants@),
            vs.len() == variants.len(),
            forall|k: int| 0 <= k < variants.len() ==> #[trigger] vs[k] == variant_view(&variants@[k]),
            missing@ == joined_text(missing_variants(vs.subrange(0, v as int), arms@), ", "@),
            any_missing <==> missing_variants(vs.subrange(0, v as int), arms@).len() > 0,
        decreases variants.len() - v,
    {
        let mut covered = false;
        let mut a2: usize = 0;
        while a2 < arms.len()
            invariant
                a2 <= arms.len(),
                v < variants.len(),
                covered <==> exists|b: int| 0 <= b < a2 && ((#[trigger] arms@[b]).pattern matches TypedPattern::EnumVariant {
                    discriminant,
                    ..
                } && discriminant == variants@[v as int].discriminant),
            decreases arms.len() - a2,
        {
            match &arms[a2].pattern {
                TypedPattern::EnumVariant { discriminant, .. } => {
                    if *discriminant == variants[v].discriminant {
                        covered = true;
                    }
                },
                TypedPattern::Wildcard => {},
            }
            a2 = a2 + 1;
        }
        let ghost prev = missing_variants(vs.subrange(0, v as int), arms@);
        proof {
            assert(vs.subrange(0, v + 1).drop_last() =~= vs.subrange(0, v as int));
            assert(vs.subrange(0, v + 1).last() == vs[v as int]);
            assert(vs[v as int] == variant_view(&variants@[v as int]));
            assert(covered == covers(arms@, vs[v as int].discriminant));
        }
        if !covered {
            if any_missing {
                push_str(&mut missing, ", ");
            }
            push_str(&mut missing, variants[v].name.as_str());
            any_missing = true;
            proof {
                let next = prev.push(vs[v as int].name);
                assert(next.drop_last() =~= prev);
                assert(next.last() == vs[v as int].name);
                if prev.len() == 0 {
                    reveal_strlit("");
                    assert(missing@ =~= joined_text(next, ", "@));
                } else {
                    assert(missing@ =~= joined_text(next, ", "@));
                }
            }
        }
        v = v + 1;
    }
    proof {
        assert(vs.subrange(0, variants.len() as int) =~= vs);
    }
    if any_missing {
        return Err(AnalysisError::from_message(message3(
            "switch on enum is not exhaustive: missing variant(s) ",
            missing.as_str(),
            " (add `when _` or cover them)",
        )));
    }
    Ok(())
}

/// An expression that may be assigned to in a multi-assignment.
pub open spec fn valid_target(e: Expression, scopes: Seq<Scope>) -> bool {
    match e.kind {
        ExpressionKind::Identifier(id) => !(lookup_in(scopes, id@) matches Some(TypedSymbol::Binding(b)) && !b.mutable),
        ExpressionKind::FieldAccess { object, .. } => !(object.kind matches ExpressionKind::Identifier(id)
            && lookup_in(scopes, id@) matches Some(TypedSymbol::Binding(b)) && !b.mutable),
        ExpressionKind::Dereference(_) | ExpressionKind::IndexAccess { .. } => true,
        _ => false,
    }
}

fn immutable_binding(scope: &SymbolTable, id: &Identifier) -> (r: bool)
    ensures
        r == (lookup_in(scope.scopes@, id@) matches Some(TypedSymbol::Binding(b)) && !b.mutable),
{
    match scope.lookup(id) {
        Some(TypedSymbol::Binding(b)) => !b.mutable,
        _ => false,
    }
}

/// Reject assignment targets that are constants or not places.
pub fn validate_assignment_target(target: &Expression, scope: &SymbolTable) -> (r: Result<(), AnalysisError>)
    ensures
        r is Ok <==> valid_target(*target, scope.scopes@),
{
    match &target.kind {
        ExpressionKind::Identifier(id) => {
            if immutable_binding(scope, id) {
                return Err(not_found("cannot assign to constant '", id, "'"));
            }
            Ok(())
        },
        ExpressionKind::FieldAccess { object, .. } => {
            match &object.kind {
                ExpressionKind::Identifier(id) => {
                    if immutable_binding(scope, id) {
                        return Err(not_found("cannot assign to field of constant '", id, "'"));
                    }
                },
                _ => {},
            }
            Ok(())
        },
        ExpressionKind::Dereference(_) | ExpressionKind::IndexAccess { .. } => Ok(()),
        _ => Err(AnalysisError::from_str("invalid multi-assignment target")),
    }
}

/// The per-target types of `count` targets given `values`: one value per
/// target, or a single tuple with one element per target.
pub open spec fn multi_value_types(count: nat, values: Seq<TypedExpr>) -> Option<Seq<TyV>> {
    if values.len() == count {
        Some(Seq::new(count, |i: int| values[i].inferred_type@))
    } else if values.len() == 1 && (values[0].inferred_type@ matches TyV::Tuple { elements } && elements.len() == count) {
        Some(values[0].inferred_type@->Tuple_elements)
    } else {
        None
    }
}

pub fn resolve_multi_value_types(count: usize, values: &Vec<TypedExpr>) -> (r: Option<Vec<Ty>>)
    ensures
        match multi_value_types(count as nat, values@) {
            Some(ts) => r matches Some(v) && crate::frontend::typed_ast::tys_view(v@) == ts,
            None => r is None,
        },
{
    if values.len() == count {
        let mut out: Vec<Ty> = Vec::new();
        let mut i: usize = 0;
        while i < count
            invariant
                values.len() == count,
                0 <= i <= count,
                out.len() == i,
                forall|j: int| 0 <= j < i ==> #[trigger] out@[j]@ == values@[j].inferred_type@,
            decreases count - i,
        {
            out.push(values[i].inferred_type.copy());
            i = i + 1;
        }
        proof {
            crate::frontend::typed_ast::lemma_tys_view(out@);
            assert forall|j: int| 0 <= j < count implies crate::frontend::typed_ast::tys_view(out@)[j] == values@[j].inferred_type@ by {
                assert(out@[j]@ == values@[j].inferred_type@);
            }
            assert(crate::frontend::typed_ast::tys_view(out@) =~= Seq::new(count as nat, |i: int| values@[i].inferred_type@));
        }
        return Some(out);
    }
    if values.len() == 1 {
        proof {
            crate::frontend::typed_ast::lemma_view_variant(&values@[0].inferred_type);
        }
        match &values[0].inferred_type {
            Ty::Tuple { elements } => {
                proof {
                    crate::frontend::typed_ast::lemma_tys_view(elements@);
                }
                if elements.len() == count {
                    let v = crate::frontend::typed_ast::copy_tys(elements);
                    return Some(v);
                }
            },
            _ => {},
        }
    }
    None
}

/// `a, b = ...`: one value per target, or one tuple with an element per target.
pub fn validate_multi_assignment_shape(targets: &Vec<TypedExpr>, values: &Vec<TypedExpr>) -> (r: Result<(), AnalysisError>)
    ensures
        r is Ok <==> multi_value_types(targets.len() as nat, values@) is Some,
{
    match resolve_multi_value_types(targets.len(), values) {
        Some(_) => Ok(()),
        None => {
            let mut m = str_to_string("multi-assignment arity mismatch: ");
            push_str(&mut m, usize_to_string(targets.len()).as_str());
            push_str(&mut m, " target(s), ");
            push_str(&mut m, usize_to_string(values.len()).as_str());
            push_str(&mut m, " value expression(s)");
            Err(AnalysisError::from_message(m))
        },
    }
}

/// The types of the names of `q, r := ...`, by the same rule.
pub fn infer_multi_binding_types(identifiers: &Vec<Identifier>, values: &Vec<TypedExpr>) -> (r: Result<Vec<Ty>, AnalysisError>)
    ensures
        match multi_value_types(identifiers.len() as nat, values@) {
            Some(ts) => r matches Ok(v) && crate::frontend::typed_ast::tys_view(v@) == ts,
            None => r is Err,
        },
{
    match resolve_multi_value_types(identifiers.len(), values) {
        Some(v) => Ok(v),
        None => {
            let mut m = str_to_string("multi-variable declaration arity mismatch: ");
            push_str(&mut m, usize_to_string(identifiers.len()).as_str());
            push_str(&mut m, " identifier(s), ");
            push_str(&mut m, usize_to_string(values.len()).as_str());
            push_str(&mut m, " value expression(s)");
            Err(AnalysisError::from_message(m))
        },
    }
}

/// `q, r := ...`: bind each name, mutable and without initializer, to its type.
pub fn multi_var_decl_to_typed(
    identifiers: Vec<Identifier>,
    typed_values: Vec<TypedExpr>,
    scope: &mut SymbolTable,
) -> (r: Result<TypedStatement, AnalysisError>)
    requires
        old(scope).scopes.len() > 0,
    ensures
        outer_kept(*old(scope), *final(scope)),
        r is Ok ==> scope_kept(*old(scope), *final(scope)),
        r matches Ok(t) ==> (t matches TypedStatement::MultiBinding { bindings, values } && values@ == typed_values@
            && bindings.len() == identifiers.len()
            && (multi_value_types(identifiers.len() as nat, typed_values@) matches Some(ts)
                && forall|i: int| 0 <= i < bindings.len() ==> (#[trigger] bindings@[i]).name@ == identifiers@[i]@
                    && bindings@[i].ty@ == ts[i] && bindings@[i].mutable && bindings@[i].init is None)),
        multi_value_types(identifiers.len() as nat, typed_values@) is None ==> r is Err,
        multi_value_types(identifiers.len() as nat, typed_values@) is Some ==> r is Ok,
{
    let types = infer_multi_binding_types(&identifiers, &typed_values)?;
    proof {
        crate::frontend::typed_ast::lemma_tys_view(types@);
    }
    let ghost before = *scope;
    let mut bindings: Vec<TypedBinding> = Vec::new();
    let mut i: usize = 0;
    while i < identifiers.len()
        invariant
            0 <= i <= identifiers.len(),
            types.len() == identifiers.len(),
            bindings.len() == i,
            multi_value_types(identifiers.len() as nat, typed_values@) == Some(crate::frontend::typed_ast::tys_view(types@)),
            forall|j: int| 0 <= j < i ==> (#[trigger] bindings@[j]).name@ == identifiers@[j]@
                && bindings@[j].ty@ == crate::frontend::typed_ast::tys_view(types@)[j] && bindings@[j].mutable && bindings@[j].init is None,
            scope_kept(before, *scope),
            before.scopes.len() > 0,
        decreases identifiers.len() - i,
    {
        let binding = TypedBinding { name: identifiers[i].copy(), ty: types[i].copy(), init: None, mutable: true };
        scope.insert(identifiers[i].copy(), TypedSymbol::Binding(binding.clone()));
        bindings.push(binding);
        i = i + 1;
    }
    proof { lemma_kept_outer(*old(scope), *scope); }
    Ok(TypedStatement::MultiBinding { bindings, values: typed_values })
}

/// `var T x = e`, `x: T = e`, `x := e`: the declared type, or else the
/// initializer's; an initializer is checked against a declared type (an array
/// initializer element by element after its size); the binding is mutable.
pub fn var_decl_to_typed(d: VariableDeclaration, scope: &mut SymbolTable, cache: &mut GenericCache, fuel: usize) -> (r: Result<TypedBinding, AnalysisError>)
    requires
        old(cache).wf(),
        old(scope).scopes.len() > 0,
    ensures
        outer_kept(*old(scope), *final(scope)),
        final(cache).wf(),
        r is Ok ==> scope_kept(*old(scope), *final(scope)),
        r matches Ok(b) ==> b.name@ == d.identifier@ && b.mutable && (d.constant_type matches Some(t) ==> b.ty@ == type_of(&t))
            && (d.expression is None ==> b.init is None) && (b.init matches Some(i) ==> i.inferred_type@ == b.ty@)
            && (d.expression matches Some(e) ==> b.init matches Some(i) && initialized(e, old(scope).scopes@, b.ty@, i))
            && (lookup_in(final(scope).scopes@, d.identifier@) matches Some(TypedSymbol::Binding(s)) && s.ty@ == b.ty@ && s.mutable)
            && (final(scope).scopes@.last().symbols@.last() matches (n, TypedSymbol::Binding(s)) && n@ == d.identifier@
                && same_tbinding(b, s))
            && final(scope).scopes@.last().symbols@.drop_last() == old(scope).scopes@.last().symbols@,
        (d.constant_type matches Some(t) && t.kind is TypeKeyword) ==> r is Err,
        (d.constant_type is None && d.expression is None) ==> (r matches Err(e)
            && e.message@ == "inferred variable declaration requires an initializer"@),
        d.constant_type matches Some(t) ==> (type_of(&t) matches TyV::Array { size: ds, .. } ==> (d.expression matches Some(e)
            ==> (plain_type(e, old(scope).scopes@) matches Some(TyV::Array { size: is, .. }) ==> (is != ds ==> (r matches Err(er)
                && er.message@ == size_mismatch_text(d.identifier@, ds, is)))))),
        d.constant_type matches Some(t) ==> (type_of(&t) matches TyV::Array { element_type: de, size: ds } ==> (d.expression matches Some(e)
            ==> (plain_type(e, old(scope).scopes@) matches Some(TyV::Array { element_type: ie, size: is }) ==> (is == ds
                && e.kind is ArrayLiteral && never_fits(old(scope).scopes@, *ie, *de) ==> (r matches Err(er)
                && er.message@ == element_mismatch_text(*ie, *de, d.identifier@)))))),
        d.constant_type is None ==> (d.expression matches Some(e) ==> (plain_type(e, old(scope).scopes@) matches Some(t)
            ==> (!(t is Array) ==> r is Ok))),
        d.constant_type matches Some(t) ==> (!(t.kind is TypeKeyword) && d.expression is None ==> r is Ok),
        d.constant_type matches Some(ct) ==> (type_of(&ct) matches TyV::Array { element_type: de, size: ds } ==> (d.expression
            matches Some(e) ==> (e.kind is ArrayLiteral ==> (plain_type(e, old(scope).scopes@) matches Some(
            TyV::Array { element_type: ie, size: is },
        ) ==> (is == ds && (*ie == *de || (numeric_type(*ie) && numeric_type(*de))) ==> r is Ok))))),
        d.constant_type is None ==> (d.expression matches Some(e) ==> (r matches Ok(b) ==> exists|t: TypedExpr|
            #[trigger] typed_as(e, old(scope).scopes@, t) && b.ty@ == t.inferred_type@)),
        d.constant_type is None ==> (d.expression matches Some(e) ==> (plain_type(e, old(scope).scopes@) matches Some(pt)
            ==> (r matches Ok(b) ==> b.ty@ == pt))),
        d.constant_type matches Some(ct) ==> (d.expression matches Some(e) ==> (plain_type(e, old(scope).scopes@) matches Some(pt)
            ==> (!(ct.kind is TypeKeyword) && !(type_of(&ct) is Array && pt is Array) ==> (r is Ok <==> plain_fits(
            old(scope).scopes@,
            e,
            pt,
            type_of(&ct),
        ))))),
    decreases fuel, 1nat, d,
{
    let declared: Option<Ty> = match &d.constant_type {
        Some(t) => match t.kind {
            TypeExpressionKind::TypeKeyword => {
                return Err(AnalysisError::from_str(
                    "mutable type bindings (`var type`) are not yet supported; use `const type` for compile-time type aliases",
                ));
            },
            _ => Some(map_type(t)),
        },
        None => None,
    };
    let has_declared = declared.is_some();
    let ghost scopes0 = scope.scopes@;
    let ghost given = d.expression;
    let init: Option<TypedExpr> = match d.expression {
        Some(e) => {
            Some(expr_to_typed(e, scope, cache, fuel)?)
        },
        None => {
            if !has_declared {
                return Err(AnalysisError::from_str("inferred variable declaration requires an initializer").with_hint(
                    "add an initializer, or declare an explicit type and defer initialization, e.g. `var @int4 x;`",
                ));
            }
            None
        },
    };
    let ty: Ty = match declared {
        Some(t) => t,
        None => match &init {
            Some(i) => i.inferred_type.copy(),
            None => {
                return Err(AnalysisError::from_str("inferred variable declaration requires an initializer"));
            },
        },
    };
    let ghost typed_init = init;
    proof {
        if let Some(e) = given {
            if plain_type(e, scopes0) is Some {
                lemma_plain_type(e, scopes0, typed_init->0);
                lemma_plain_fits(e, scopes0, typed_init->0, ty@);
                if let (TyV::Array { element_type: de, .. }, ExpressionKind::ArrayLiteral { elements }) = (ty@, e.kind) {
                    let t = typed_init->0;
                    if let (TyV::Array { element_type: ie, .. }, TypedExprKind::ArrayLiteral { elements: typed }) = (
                        t.inferred_type@,
                        t.expression,
                    ) {
                        if *ie == *de || (numeric_type(*ie) && numeric_type(*de)) {
                            assert forall|k: int| 0 <= k < typed.len() implies !(assign_coercion(
                                scopes0,
                                (#[trigger] typed@[k]).expression,
                                typed@[k].inferred_type@,
                                *de,
                            ) is Reject) by {
                                if k > 0 {
                                    assert(assign_fitted(elements@[k], scopes0, typed@[0].inferred_type@, typed@[k]));
                                    let w = choose|w: TypedExpr| typed_as(elements@[k], scopes0, w) && #[trigger] coerced(
                                        w,
                                        typed@[0].inferred_type@,
                                        assign_coercion(scopes0, w.expression, w.inferred_type@, typed@[0].inferred_type@),
                                        Ok::<TypedExpr, AnalysisError>(typed@[k]),
                                    );
                                }
                                assert(typed@[k].inferred_type@ == *ie);
                            }
                        }
                    }
                }
            }
        }
    }
    let init: Option<TypedExpr> = match init {
        None => None,
        Some(init) => Some(check_initializer(&d.identifier, &ty, init, scope)?),
    };
    proof {
        if let Some(e) = given {
            let t = typed_init->0;
            assert(typed_as(e, scopes0, t));
            assert(initialized(e, scopes0, ty@, init->0));
            if !has_declared {
                assert(ty@ == t.inferred_type@);
            }
        }
    }
    let binding = TypedBinding { name: d.identifier.copy(), ty, init, mutable: true };
    scope.insert(d.identifier.copy(), TypedSymbol::Binding(binding.clone()));
    proof { lemma_kept_outer(*old(scope), *scope); }
    Ok(binding)
}

/// `i` is the typed initializer `t` fitted to the declared type `ty`: by the
/// assignment rule, except that an array of the declared length has each of
/// its elements fitted to the declared element type.
pub open spec fn initializer_fits(t: TypedExpr, scopes: Seq<Scope>, ty: TyV, i: TypedExpr) -> bool {
    &&& i.inferred_type@ == ty
    &&& !(ty is Array && t.inferred_type@ is Array) ==> coerced(
        t,
        ty,
        assign_coercion(scopes, t.expression, t.inferred_type@, ty),
        Ok::<TypedExpr, AnalysisError>(i),
    )
    &&& match (ty, t.inferred_type@) {
        (TyV::Array { size: decl_size, .. }, TyV::Array { size: init_size, .. }) => decl_size == init_size,
        _ => true,
    }
}

/// `i` is the initializer expression `e` typed, then fitted to `ty`.
pub open spec fn initialized(e: Expression, scopes: Seq<Scope>, ty: TyV, i: TypedExpr) -> bool {
    exists|t: TypedExpr| #[trigger] typed_as(e, scopes, t) && initializer_fits(t, scopes, ty, i)
}

/// The message of an array initializer of `is` elements for a binding
/// `name` declared with `ds`.
pub open spec fn size_mismatch_text(name: Seq<char>, ds: u64, is: u64) -> Seq<char> {
    "array size mismatch for "@ + name + ": declared size "@ + decimal(ds as nat) + " but initializer has "@ + decimal(is as nat)
        + " elements"@
}

/// The message of an array element of type `found` that does not fit the
/// element type `declared` of the binding `name`.
pub open spec fn element_mismatch_text(found: TyV, declared: TyV, name: Seq<char>) -> Seq<char> {
    "array element of type "@ + type_text(found) + " does not match declared element type "@ + type_text(declared) + " for "@ + name
}

/// No expression of type `src` fits `dst` by the assignment rule, whatever
/// its form.
pub open spec fn never_fits(scopes: Seq<Scope>, src: TyV, dst: TyV) -> bool {
    src != dst && resolved(scopes, dst) != resolved(scopes, src) && src != TyV::Builtin(BuiltinType::Never)
        && !(numeric_type(src) && numeric_type(dst))
}

/// Fit an initializer to the binding's type.
fn check_initializer(name: &Identifier, ty: &Ty, init: TypedExpr, scope: &SymbolTable) -> (r: Result<TypedExpr, AnalysisError>)
    ensures
        r matches Ok(i) ==> initializer_fits(init, scope.scopes@, ty@, i),
        ty@ matches TyV::Array { size: ds, .. } ==> (init.inferred_type@ matches TyV::Array { size: is, .. } ==> (ds != is
            ==> (r matches Err(e) && e.message@ == size_mismatch_text(name@, ds, is)))),
        ty@ matches TyV::Array { element_type: de, size: ds } ==> (init.inferred_type@ matches TyV::Array { element_type: ie, size: is }
            ==> (ds == is && never_fits(scope.scopes@, *ie, *de) ==> (init.expression matches TypedExprKind::ArrayLiteral { elements }
                ==> (elements.len() > 0 && elements@[0].inferred_type@ == *ie ==> (r matches Err(e)
                && e.message@ == element_mismatch_text(*ie, *de, name@)))))),
        !(ty@ is Array && init.inferred_type@ is Array) ==> (r matches Err(e) ==> e.message@ == "initialization type "@
            + type_text(init.inferred_type@) + " does not match declared type "@ + type_text(ty@) + " for "@ + name@),
        match (ty@, init.inferred_type@) {
            (TyV::Array { size: decl_size, .. }, TyV::Array { size: init_size, .. }) => decl_size != init_size ==> r is Err,
            _ => true,
        },
        !(ty@ is Array && init.inferred_type@ is Array) ==> (r is Ok <==> !(assign_coercion(scope.scopes@, init.expression,
            init.inferred_type@, ty@) is Reject)),
        ty@ matches TyV::Array { element_type: de, size: ds } ==> (init.inferred_type@ matches TyV::Array { size: is, .. } ==> (ds
            == is ==> (init.expression matches TypedExprKind::ArrayLiteral { elements } ==> ((forall|k: int| 0 <= k < elements.len()
            ==> !(assign_coercion(scope.scopes@, (#[trigger] elements@[k]).expression, elements@[k].inferred_type@, *de) is Reject))
            ==> r is Ok)))),
        ty@ is Array && init.inferred_type@ is Array && !(init.expression is ArrayLiteral) ==> (r is Ok <==> match (ty@, init.inferred_type@) {
            (TyV::Array { size: ds, .. }, TyV::Array { size: is, .. }) => ds == is,
            _ => true,
        }),
{
    let array_sizes: Option<(u64, u64)> = match (ty, &init.inferred_type) {
        (Ty::Array { size: ds, .. }, Ty::Array { size: is, .. }) => Some((*ds, *is)),
        _ => None,
    };
    match array_sizes {
        Some((decl_size, init_size)) => {
            if decl_size != init_size {
                let mut m = str_to_string("array size mismatch for ");
                push_str(&mut m, name.value.as_str());
                push_str(&mut m, ": declared size ");
                crate::text::push_decimal(&mut m, decl_size);
                push_str(&mut m, " but initializer has ");
                crate::text::push_decimal(&mut m, init_size);
                push_str(&mut m, " elements");
                return Err(AnalysisError::from_message(m));
            }
            let decl_elem = match ty {
                Ty::Array { element_type, .. } => (**element_type).copy(),
                _ => Ty::Type,
            };
            let expression = match init.expression {
                TypedExprKind::ArrayLiteral { elements } => {
                    let n = elements.len();
                    let ghost orig = elements@;
                    let ghost hopeless = match (ty@, init.inferred_type@) {
                        (TyV::Array { element_type: de, .. }, TyV::Array { element_type: ie, .. }) => never_fits(scope.scopes@, *ie, *de)
                            && n > 0 && orig[0].inferred_type@ == *ie && decl_elem@ == *de,
                        _ => false,
                    };
                    let ghost all_fit = forall|k: int| 0 <= k < n ==> !(assign_coercion(scope.scopes@, (#[trigger] orig[k]).expression,
                        orig[k].inferred_type@, decl_elem@) is Reject);
                    let mut rest = elements;
                    let mut coerced: Vec<TypedExpr> = Vec::new();
                    let mut i: usize = 0;
                    while i < n
                        invariant
                            all_fit == forall|k: int| 0 <= k < n ==> !(assign_coercion(scope.scopes@, (#[trigger] orig[k]).expression,
                                orig[k].inferred_type@, decl_elem@) is Reject),
                            rest.len() == n - i,
                            rest@ == orig.subrange(i as int, n as int),
                            0 <= i <= n,
                            hopeless ==> i == 0,
                        decreases n - i,
                    {
                        let el = rest.remove(0);
                        proof {
                            assert(el == orig[i as int]);
                            assert(rest@ =~= orig.subrange(i + 1, n as int));
                        }
                        let found = describe_type(&el.inferred_type);
                        match coerce_or_alias(el, &decl_elem, scope) {
                            Ok(c) => coerced.push(c),
                            Err(_) => {
                                let mut m = str_to_string("array element of type ");
                                push_str(&mut m, found.as_str());
                                push_str(&mut m, " does not match declared element type ");
                                push_str(&mut m, describe_type(&decl_elem).as_str());
                                push_str(&mut m, " for ");
                                push_str(&mut m, name.value.as_str());
                                return Err(AnalysisError::from_message(m));
                            },
                        }
                        i = i + 1;
                    }
                    TypedExprKind::ArrayLiteral { elements: coerced }
                },
                other => other,
            };
            Ok(TypedExpr { inferred_type: ty.copy(), expression })
        },
        None => {
            if ty_eq(&init.inferred_type, ty) {
                assert(assign_coercion(scope.scopes@, init.expression, init.inferred_type@, ty@) is Keep);
                assert(initializer_fits(init, scope.scopes@, ty@, init));
                return Ok(init);
            }
            let found = describe_type(&init.inferred_type);
            match coerce_or_alias(init, ty, scope) {
                Ok(i) => Ok(i),
                Err(_) => {
                    let mut m = str_to_string("initialization type ");
                    push_str(&mut m, found.as_str());
                    push_str(&mut m, " does not match declared type ");
                    push_str(&mut m, describe_type(ty).as_str());
                    push_str(&mut m, " for ");
                    push_str(&mut m, name.value.as_str());
                    Err(AnalysisError::from_message(m))
                },
            }
        },
    }
}

} // verus!
