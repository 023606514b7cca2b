//! The coercion rule: how an expression of one type is made to fit another.
use vstd::prelude::*;

use crate::frontend::analyze::types::{float_type, integer_type, is_float_type, is_integer_type, is_numeric_type, numeric_type, resolve_type_alias, resolved};
use crate::frontend::analyze::AnalysisError;
use crate::frontend::tokens::{BuiltinType, builtin_spelling};
use crate::frontend::typed_ast::{Scope, SymbolTable, Ty, TyV, TypedExpr, TypedExprKind, lemma_tys_view, ty_eq, tys_view};
use crate::text::{decimal, push_str, str_to_string};

verus! {

/// What fitting an expression to a type does to it.
pub enum Coercion {
    /// The types already agree: the expression is kept as it is.
    Keep,
    /// The expression is re-annotated with the target type.
    Relabel,
    /// The expression is wrapped in a numeric conversion.
    Cast,
    /// The expression does not fit.
    Reject,
}

/// The numeric coercion rule: `null`/never-typed expressions and literals
/// adopt the target type, other numerics are converted, anything else fails.
pub open spec fn coercion(kind: TypedExprKind, src: TyV, dst: TyV) -> Coercion {
    if src == dst {
        Coercion::Keep
    } else if src == TyV::Builtin(BuiltinType::Never) {
        Coercion::Relabel
    } else if kind is LiteralInt && integer_type(src) && integer_type(dst) {
        Coercion::Relabel
    } else if kind is LiteralFloat && float_type(src) && float_type(dst) {
        Coercion::Relabel
    } else if numeric_type(src) && numeric_type(dst) {
        Coercion::Cast
    } else {
        Coercion::Reject
    }
}

/// The rule for assignments: a type and an alias of it agree structurally.
pub open spec fn assign_coercion(scopes: Seq<Scope>, kind: TypedExprKind, src: TyV, dst: TyV) -> Coercion {
    if src == dst {
        Coercion::Keep
    } else if resolved(scopes, dst) == resolved(scopes, src) {
        Coercion::Relabel
    } else {
        coercion(kind, src, dst)
    }
}

/// `r` is `expr` fitted to `target` as `c` says.
pub open spec fn coerced(expr: TypedExpr, target: TyV, c: Coercion, r: Result<TypedExpr, AnalysisError>) -> bool {
    match c {
        Coercion::Keep => r == Ok::<TypedExpr, AnalysisError>(expr),
        Coercion::Relabel => r matches Ok(e) && e.expression == expr.expression && e.inferred_type@ == target,
        Coercion::Cast => r matches Ok(e) && e.inferred_type@ == target && (e.expression matches TypedExprKind::Cast {
            expr: inner,
            target_type,
        } && *inner == expr && target_type@ == target),
        Coercion::Reject => r is Err,
    }
}

/// The message of a failed coercion from `src` to `dst`.
pub open spec fn coerce_text(src: TyV, dst: TyV) -> Seq<char> {
    "cannot coerce expression of type "@ + type_text(src) + " to "@ + type_text(dst)
}

/// Fit `expr` to `target` by the numeric coercion rule.
pub fn coerce_expr_to_type(expr: TypedExpr, target: &Ty) -> (r: Result<TypedExpr, AnalysisError>)
    ensures
        coerced(expr, target@, coercion(expr.expression, expr.inferred_type@, target@), r),
        r matches Err(e) ==> e.message@ == coerce_text(expr.inferred_type@, target@),
{
    if ty_eq(&expr.inferred_type, target) {
        return Ok(expr);
    }
    let never = Ty::Builtin(BuiltinType::Never);
    if ty_eq(&expr.inferred_type, &never) {
        return Ok(TypedExpr { inferred_type: target.copy(), expression: expr.expression });
    }
    let literal_int = match &expr.expression {
        TypedExprKind::LiteralInt { .. } => true,
        _ => false,
    };
    let literal_float = match &expr.expression {
        TypedExprKind::LiteralFloat { .. } => true,
        _ => false,
    };
    if literal_int && is_integer_type(&expr.inferred_type) && is_integer_type(target) {
        return Ok(TypedExpr { inferred_type: target.copy(), expression: expr.expression });
    }
    if literal_float && is_float_type(&expr.inferred_type) && is_float_type(target) {
        return Ok(TypedExpr { inferred_type: target.copy(), expression: expr.expression });
    }
    if is_numeric_type(&expr.inferred_type) && is_numeric_type(target) {
        return Ok(TypedExpr {
            inferred_type: target.copy(),
            expression: TypedExprKind::Cast { expr: Box::new(expr), target_type: target.copy() },
        });
    }
    let mut msg = str_to_string("cannot coerce expression of type ");
    push_str(&mut msg, describe_type(&expr.inferred_type).as_str());
    push_str(&mut msg, " to ");
    push_str(&mut msg, describe_type(target).as_str());
    Err(AnalysisError::from_message(msg))
}

/// Fit `expr` to `target`, also accepting a named alias of the same structure.
pub fn coerce_or_alias(expr: TypedExpr, target: &Ty, scope: &SymbolTable) -> (r: Result<TypedExpr, AnalysisError>)
    ensures
        coerced(expr, target@, assign_coercion(scope.scopes@, expr.expression, expr.inferred_type@, target@), r),
        r matches Err(e) ==> e.message@ == coerce_text(expr.inferred_type@, target@),
{
    if ty_eq(&expr.inferred_type, target) {
        return Ok(expr);
    }
    let a = resolve_type_alias(target, scope);
    let b = resolve_type_alias(&expr.inferred_type, scope);
    if ty_eq(&a, &b) {
        return Ok(TypedExpr { inferred_type: target.copy(), expression: expr.expression });
    }
    coerce_expr_to_type(expr, target)
}

/// The assignment check: fit `expr` to `target` (described as `what` in the
/// error), with the same rule as `coerce_or_alias`.
pub fn check_assignable(target: &Ty, expr: TypedExpr, scope: &SymbolTable, what: &str) -> (r: Result<TypedExpr, AnalysisError>)
    ensures
        coerced(expr, target@, assign_coercion(scope.scopes@, expr.expression, expr.inferred_type@, target@), r),
        r matches Err(e) ==> e.message@ == "cannot assign value of type "@ + type_text(expr.inferred_type@) + " to "@ + what@,
{
    let found = describe_type(&expr.inferred_type);
    match coerce_or_alias(expr, target, scope) {
        Ok(e) => Ok(e),
        Err(_) => {
            let mut msg = str_to_string("cannot assign value of type ");
            push_str(&mut msg, found.as_str());
            push_str(&mut msg, " to ");
            push_str(&mut msg, what);
            Err(AnalysisError::from_message(msg))
        },
    }
}

/// Whether `value` fits `target` by the assignment rule, decided without
/// building the fitted expression.
pub fn assignable(target: &Ty, value: &TypedExpr, scope: &SymbolTable) -> (r: bool)
    ensures
        r == (assign_coercion(scope.scopes@, value.expression, value.inferred_type@, target@) != Coercion::Reject),
{
    if ty_eq(&value.inferred_type, target) {
        return true;
    }
    let a = resolve_type_alias(target, scope);
    let b = resolve_type_alias(&value.inferred_type, scope);
    if ty_eq(&a, &b) {
        return true;
    }
    let never = Ty::Builtin(BuiltinType::Never);
    if ty_eq(&value.inferred_type, &never) {
        return true;
    }
    let literal_int = match &value.expression {
        TypedExprKind::LiteralInt { .. } => true,
        _ => false,
    };
    let literal_float = match &value.expression {
        TypedExprKind::LiteralFloat { .. } => true,
        _ => false,
    };
    if literal_int && is_integer_type(&value.inferred_type) && is_integer_type(target) {
        return true;
    }
    if literal_float && is_float_type(&value.inferred_type) && is_float_type(target) {
        return true;
    }
    is_numeric_type(&value.inferred_type) && is_numeric_type(target)
}

/// How a type reads in messages, e.g. `*@int4`, `@int4[2]` or `(@int4, @bool)`.
pub open spec fn type_text(t: TyV) -> Seq<char>
    decreases t,
{
    match t {
        TyV::Builtin(b) => builtin_spelling(b),
        TyV::Identifier(name) => name,
        TyV::QualifiedIdentifier { module, name } => module + "::"@ + name,
        TyV::Struct { .. } => "struct"@,
        TyV::Enum { .. } => "enum"@,
        TyV::Function { .. } => "fn"@,
        TyV::Tuple { elements } => "("@ + types_text(elements) + ")"@,
        TyV::Pointer(inner) => "*"@ + type_text(*inner),
        TyV::Array { element_type, size } => type_text(*element_type) + "["@ + decimal(size as nat) + "]"@,
        TyV::Slice(inner) => type_text(*inner) + "[]"@,
        TyV::Type => "type"@,
    }
}

/// The texts of `s`, separated by `, `.
pub open spec fn types_text(s: Seq<TyV>) -> Seq<char>
    decreases s,
{
    if s.len() == 0 {
        Seq::empty()
    } else {
        proof {
            assert(decreases_to!(s => s.drop_last()));
            assert(decreases_to!(s => s[s.len() - 1]));
        }
        if s.len() == 1 {
            type_text(s[0])
        } else {
            types_text(s.drop_last()) + ", "@ + type_text(s[s.len() - 1])
        }
    }
}

/// A readable rendering of a type for messages, e.g. `*@int4` or `@int4[2]`.
pub fn describe_type(ty: &Ty) -> (s: String)
    ensures
        s@ == type_text(ty@),
    decreases ty, 0nat,
{
    match ty {
        Ty::Builtin(b) => str_to_string(b.spelling()),
        Ty::Identifier(id) => id.value.clone(),
        Ty::QualifiedIdentifier { module, name } => {
            let mut s = module.clone();
            push_str(&mut s, "::");
            push_str(&mut s, name.value.as_str());
            s
        },
        Ty::Struct { .. } => str_to_string("struct"),
        Ty::Enum { .. } => str_to_string("enum"),
        Ty::Function { .. } => str_to_string("fn"),
        Ty::Tuple { elements } => {
            proof { assert(decreases_to!(*ty => *elements)); assert(decreases_to!(elements => elements@)); }
            let mut s = str_to_string("(");
            push_str(&mut s, describe_types(elements).as_str());
            push_str(&mut s, ")");
            s
        },
        Ty::Pointer(inner) => {
            let mut s = str_to_string("*");
            push_str(&mut s, describe_type(&**inner).as_str());
            s
        },
        Ty::Array { element_type, size } => {
            let mut s = describe_type(&**element_type);
            push_str(&mut s, "[");
            crate::text::push_decimal(&mut s, *size);
            push_str(&mut s, "]");
            s
        },
        Ty::Slice(inner) => {
            let mut s = describe_type(&**inner);
            push_str(&mut s, "[]");
            s
        },
        Ty::Type => str_to_string("type"),
    }
}

fn describe_types(v: &Vec<Ty>) -> (s: String)
    ensures
        s@ == types_text(tys_view(v@)),
    decreases v@, 0nat,
{
    let mut s = crate::text::empty_string();
    let mut i: usize = 0;
    proof {
        assert(v@.subrange(0, 0) =~= Seq::<Ty>::empty());
    }
    while i < v.len()
        invariant
            0 <= i <= v.len(),
            s@ == types_text(tys_view(v@.subrange(0, i as int))),
        decreases v.len() - i,
    {
        proof {
            assert(decreases_to!(v@ => v@[i as int]));
            assert(v@.subrange(0, i + 1).drop_last() =~= v@.subrange(0, i as int));
            lemma_tys_view(v@.subrange(0, i + 1));
            lemma_tys_view(v@.subrange(0, i as int));
            let prev = tys_view(v@.subrange(0, i as int));
            let next = tys_view(v@.subrange(0, i + 1));
            assert(next == prev.push(v@[i as int]@));
            assert(next.drop_last() =~= prev);
        }
        if i > 0 {
            push_str(&mut s, ", ");
        }
        push_str(&mut s, describe_type(&v[i]).as_str());
        i = i + 1;
    }
    proof {
        assert(v@.subrange(0, i as int) =~= v@);
    }
    s
}

} // verus!
