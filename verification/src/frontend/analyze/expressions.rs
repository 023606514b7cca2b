//! Typing of expressions.
#![verifier::loop_isolation(false)]
use vstd::prelude::*;

use crate::diagnostics::ErrorKind;

use crate::frontend::analyze::cache::GenericCache;
use crate::frontend::analyze::coerce::{assign_coercion, coerce_expr_to_type, coerce_or_alias, coerce_text, coerced, coercion, describe_type, type_text};
use crate::frontend::analyze::escapes::{process_escape_sequences, unescape};
use crate::frontend::analyze::generics::{instance_name, instantiate_generic, type_arguments_given};
use crate::frontend::analyze::types::{
    alias_fuel, float_type, integer_type, is_boolean_type, is_float_type, is_integer_type, is_numeric_type, map_type, numeric_type,
    resolve_struct_fields, resolve_type_alias, resolved, struct_fields_of, type_of,
};
use crate::frontend::analyze::AnalysisError;
use crate::frontend::ast::{Expression, ExpressionKind};
use crate::frontend::tokens::{BuiltinFunction, BuiltinType, Identifier, Literal, Operator, function_spelling, operator_name};
use crate::frontend::typed_ast::{
    BinOp, GenericFunctionTemplate, LogicalOp, Scope, SymbolTable, Ty, TyV, TypedExpr, TypedExprKind, TypedSymbol, binop_of, copy_fields,
    VariantV, fields_view, lemma_fields_view, lemma_variants_view, lookup_in, str_eq, variant_view, variants_view, TypedModule,
    TypedFunction, module_index, find_last,
};
use crate::text::{concat, decimal, push_str, str_to_string, usize_to_string};

verus! {

/// A message of the form `a` + `b`.
pub fn message2(a: &str, b: &str) -> (s: String)
    ensures
        s@ == a@ + b@,
{
    concat(a, b)
}

/// A message of the form `a` + `b` + `c`.
pub fn message3(a: &str, b: &str, c: &str) -> (s: String)
    ensures
        s@ == a@ + b@ + c@,
{
    let mut s = concat(a, b);
    push_str(&mut s, c);
    s
}

/// Reject a non-integer index (floats, strings, pointers ...).
pub fn require_integer_index(ty: &Ty, what: &str) -> (r: Result<(), AnalysisError>)
    ensures
        r is Ok <==> integer_type(ty@),
{
    if is_integer_type(ty) {
        Ok(())
    } else {
        let mut m = str_to_string(what);
        push_str(&mut m, " requires an integer index, found ");
        push_str(&mut m, describe_type(ty).as_str());
        Err(AnalysisError::from_message(m))
    }
}

/// The number of arguments a string builtin takes.
pub open spec fn builtin_arity(b: BuiltinFunction) -> nat {
    match b {
        BuiltinFunction::StrLen => 1,
        BuiltinFunction::Concat => 2,
        BuiltinFunction::StrEq => 2,
    }
}

/// The result type of a string builtin.
pub open spec fn builtin_result(b: BuiltinFunction) -> BuiltinType {
    match b {
        BuiltinFunction::StrLen => BuiltinType::UInt8,
        BuiltinFunction::Concat => BuiltinType::String,
        BuiltinFunction::StrEq => BuiltinType::Boolean,
    }
}

/// Operators whose result has the type of the left operand.
pub open spec fn arithmetic_op(op: Operator) -> bool {
    match op {
        Operator::Plus | Operator::Minus | Operator::Star | Operator::Slash | Operator::Percent
        | Operator::RightShift | Operator::LeftShift | Operator::Ampersand | Operator::Pipe
        | Operator::Caret => true,
        _ => false,
    }
}

/// Ordering comparisons.
pub open spec fn comparison_op(op: Operator) -> bool {
    match op {
        Operator::GreaterThan | Operator::GreaterEqual | Operator::LesserThan | Operator::LesserEqual => true,
        _ => false,
    }
}

pub open spec fn equality_op(op: Operator) -> bool {
    op == Operator::DoubleEquals || op == Operator::Different
}

pub open spec fn logical_op(op: Operator) -> bool {
    op == Operator::LogicalAnd || op == Operator::LogicalOr
}

/// `r` is the typing of `e` fitted to `target` by the numeric coercion rule.
pub open spec fn fitted(e: Expression, scopes: Seq<Scope>, target: TyV, r: TypedExpr) -> bool
    decreases e, 1nat,
{
    exists|t: TypedExpr| typed_as(e, scopes, t)
        && #[trigger] coerced(t, target, coercion(t.expression, t.inferred_type@, target), Ok::<TypedExpr, AnalysisError>(r))
}

/// `r` is the typing of `e`, a never-typed (`null`) expression, fitted to
/// `target`. With `fitted`, this is how `==` and `!=` fit their operands:
/// the right one to the left one's type, or a `null` left one to the right
/// one's type when that is not never (no other type fits the never type).
pub open spec fn null_fitted(e: Expression, scopes: Seq<Scope>, target: TyV, r: TypedExpr) -> bool
    decreases e, 1nat,
{
    exists|t: TypedExpr| typed_as(e, scopes, t) && t.inferred_type@ == TyV::Builtin(BuiltinType::Never)
        && #[trigger] coerced(t, target, coercion(t.expression, t.inferred_type@, target), Ok::<TypedExpr, AnalysisError>(r))
}

/// The message `==`, `<`, `+` or `&&` fails with on operands of the given
/// forms and types (when `binary_fits` does not hold).
pub open spec fn binary_error_text(operator: Operator, lk: TypedExprKind, l: TyV, rk: TypedExprKind, r: TyV) -> Seq<char> {
    if logical_op(operator) {
        "operator "@ + operator_name(operator) + " requires bool operands, got "@ + type_text(l) + " and "@ + type_text(r)
    } else if (arithmetic_op(operator) && !(l is Pointer) && !numeric_type(l)) || (comparison_op(operator) && !numeric_type(l)) {
        "operator "@ + operator_name(operator) + " requires numeric operands, got "@ + type_text(l)
    } else if equality_op(operator) && l == TyV::Builtin(BuiltinType::Never) && r != TyV::Builtin(BuiltinType::Never) {
        coerce_text(l, r)
    } else {
        coerce_text(r, l)
    }
}

/// `r` is the typing of `e` fitted to `target` by the assignment rule.
pub open spec fn assign_fitted(e: Expression, scopes: Seq<Scope>, target: TyV, r: TypedExpr) -> bool
    decreases e, 1nat,
{
    exists|t: TypedExpr| typed_as(e, scopes, t)
        && #[trigger] coerced(t, target, assign_coercion(scopes, t.expression, t.inferred_type@, target), Ok::<TypedExpr, AnalysisError>(r))
}

/// A typing fitted to `target` witnesses `fitted`.
proof fn lemma_fitted(e: Expression, scopes: Seq<Scope>, target: TyV, t: TypedExpr, r: TypedExpr)
    requires
        typed_as(e, scopes, t),
        coerced(t, target, coercion(t.expression, t.inferred_type@, target), Ok::<TypedExpr, AnalysisError>(r)),
    ensures
        fitted(e, scopes, target, r),
{
}

/// The literal `0` of the type of a negated operand (`0.0` for floats).
pub open spec fn zero_of(t: TyV, r: TypedExpr) -> bool {
    r.inferred_type@ == t && if float_type(t) {
        r.expression matches TypedExprKind::LiteralFloat { value } && value@ == seq!['0', '.', '0']
    } else {
        r.expression == (TypedExprKind::LiteralInt { value: 0 })
    }
}

/// Each field of the constructed value `r` is the value given for a field
/// of that name in `fields`, fitted to the field's type by the assignment
/// rule.
pub open spec fn fields_fitted(fields: Seq<(Identifier, Expression)>, scopes: Seq<Scope>, r: TypedExpr) -> bool
    decreases fields, 1nat,
{
    r.expression matches TypedExprKind::StructConstruct { fields: tf, .. }
        && forall|k: int| 0 <= k < tf.len() ==> fitted_field(fields, scopes, #[trigger] tf@[k])
}

/// The named value `entry` is the value given for a field of its name in
/// `fields`, fitted to its type by the assignment rule.
pub open spec fn fitted_field(fields: Seq<(Identifier, Expression)>, scopes: Seq<Scope>, entry: (String, TypedExpr)) -> bool
    decreases fields, 0nat,
{
    exists|j: int| #![trigger fields[j]] 0 <= j < fields.len() && fields[j].0@ == entry.0@
        && assign_fitted(fields[j].1, scopes, entry.1.inferred_type@, entry.1)
}

/// The named value `entry` is the typing of a field of its name in `fields`.
spec fn given_field(fields: Seq<(Identifier, Expression)>, scopes: Seq<Scope>, entry: (String, TypedExpr)) -> bool {
    exists|j: int| #![trigger fields[j]] 0 <= j < fields.len() && fields[j].0@ == entry.0@
        && typed_as(fields[j].1, scopes, entry.1)
}

/// `Name { f: e, ... }` where `Name` is a struct type whose fields have
/// distinct names, and the fields are given once each in declaration order,
/// each as a plain expression of the field's type.
pub open spec fn plain_construction(name: Seq<char>, fields: Seq<(Identifier, Expression)>, scopes: Seq<Scope>) -> bool {
    &&& lookup_in(scopes, name) matches Some(TypedSymbol::Type(ty))
    &&& struct_fields_of(scopes, lookup_in(scopes, name)->Some_0->Type_0@, alias_fuel(scopes)) matches Some(fs)
    &&& fields.len() == fs.len()
    &&& forall|i: int| 0 <= i < fs.len() ==> (#[trigger] fields[i]).0@ == fs[i].0 && plain_type(fields[i].1, scopes) == Some(fs[i].1)
    &&& forall|i: int, j: int| 0 <= i < fs.len() && 0 <= j < fs.len() && i != j ==> (#[trigger] fs[i]).0 != (#[trigger] fs[j]).0
}

/// What an expression of a given form is typed as: the literal types, the
/// types bindings and casts give, the shape of the typed expression, and,
/// for the operator forms, how each operand is typed in turn.
pub open spec fn typed_as(e: Expression, scopes: Seq<Scope>, r: TypedExpr) -> bool
    decreases e, 0nat,
{
    proof { assert(decreases_to!(e => e.kind)); }
    match e.kind {
        ExpressionKind::Literal(Literal::Integer(v)) => r.inferred_type@ == TyV::Builtin(BuiltinType::Int4)
            && r.expression == (TypedExprKind::LiteralInt { value: v }),
        ExpressionKind::Literal(Literal::Boolean(b)) => r.inferred_type@ == TyV::Builtin(BuiltinType::Boolean)
            && r.expression == TypedExprKind::LiteralBool(b),
        ExpressionKind::Literal(Literal::Float(f)) => r.inferred_type@ == TyV::Builtin(BuiltinType::Float8)
            && (r.expression matches TypedExprKind::LiteralFloat { value } && value@ == f@),
        ExpressionKind::Literal(Literal::Character(c)) => r.inferred_type@ == TyV::Builtin(BuiltinType::Char)
            && r.expression == (TypedExprKind::LiteralInt { value: c as u64 }),
        ExpressionKind::Literal(Literal::String(raw)) => r.inferred_type@ == TyV::Builtin(BuiltinType::String)
            && (r.expression matches TypedExprKind::LiteralString { value } && unescape(raw@) == Some(value@)),
        ExpressionKind::Literal(Literal::Null) => r.inferred_type@ == TyV::Builtin(BuiltinType::Never)
            && r.expression == TypedExprKind::Null,
        ExpressionKind::Identifier(name) => match lookup_in(scopes, name@) {
            Some(TypedSymbol::Binding(b)) => r.inferred_type@ == b.ty@ && (r.expression matches TypedExprKind::Identifier(id) && id@ == name@),
            Some(TypedSymbol::Type(t)) => r.inferred_type@ == TyV::Type && (r.expression matches TypedExprKind::ComptimeType(u) && u@ == t@),
            _ => false,
        },
        ExpressionKind::TypeValue(te) => r.inferred_type@ == TyV::Type
            && (r.expression matches TypedExprKind::ComptimeType(u) && u@ == type_of(&te)),
        ExpressionKind::BuiltinCall { builtin, args } => r.inferred_type@ == TyV::Builtin(builtin_result(builtin))
            && args.len() == builtin_arity(builtin)
            && (r.expression matches TypedExprKind::BuiltinCall { builtin: b, args: typed } && b == builtin
                && typed.len() == args.len()
                && forall|i: int| 0 <= i < typed.len() ==> #[trigger] typed@[i].inferred_type@ == TyV::Builtin(BuiltinType::String)
                && fitted(args@[i], scopes, TyV::Builtin(BuiltinType::String), typed@[i])),
        ExpressionKind::Binary { left: le, operator, right: re } => if arithmetic_op(operator) {
            r.expression matches TypedExprKind::Binary { left, operator: op, right } && binop_of(operator) == Some(op)
                && r.inferred_type@ == left.inferred_type@ && typed_as(*le, scopes, *left)
                && if left.inferred_type@ is Pointer {
                    typed_as(*re, scopes, *right)
                } else {
                    numeric_type(left.inferred_type@) && fitted(*re, scopes, left.inferred_type@, *right)
                }
        } else if comparison_op(operator) {
            r.inferred_type@ == TyV::Builtin(BuiltinType::Boolean)
                && (r.expression matches TypedExprKind::Binary { left, operator: op, right } && binop_of(operator) == Some(op)
                    && typed_as(*le, scopes, *left) && numeric_type(left.inferred_type@)
                    && fitted(*re, scopes, left.inferred_type@, *right))
        } else if equality_op(operator) {
            r.inferred_type@ == TyV::Builtin(BuiltinType::Boolean)
                && (r.expression matches TypedExprKind::Binary { left, operator: op, right } && binop_of(operator) == Some(op)
                    && ((typed_as(*le, scopes, *left) && fitted(*re, scopes, left.inferred_type@, *right))
                        || (typed_as(*re, scopes, *right) && right.inferred_type@ != TyV::Builtin(BuiltinType::Never)
                            && null_fitted(*le, scopes, right.inferred_type@, *left))))
        } else {
            logical_op(operator) && r.inferred_type@ == TyV::Builtin(BuiltinType::Boolean)
                && (r.expression matches TypedExprKind::ShortCircuit { left, operator: op, right }
                    && typed_as(*le, scopes, *left) && typed_as(*re, scopes, *right)
                    && left.inferred_type@ == TyV::Builtin(BuiltinType::Boolean)
                    && right.inferred_type@ == TyV::Builtin(BuiltinType::Boolean)
                    && op == (if operator == Operator::LogicalAnd { LogicalOp::And } else { LogicalOp::Or }))
        },
        ExpressionKind::Unary { operator, expression: ie } => if operator == Operator::Minus {
            r.expression matches TypedExprKind::Binary { left, operator: op, right } && op == BinOp::Sub
                && r.inferred_type@ == right.inferred_type@ && typed_as(*ie, scopes, *right)
                && zero_of(right.inferred_type@, *left)
        } else if operator == Operator::Tilde {
            r.expression matches TypedExprKind::Binary { left, operator: op, right } && op == BinOp::Xor
                && r.inferred_type@ == left.inferred_type@ && typed_as(*ie, scopes, *left)
                && right.inferred_type@ == left.inferred_type@
                && right.expression == (TypedExprKind::LiteralInt { value: u64::MAX })
        } else {
            operator == Operator::LogicalNot && r.inferred_type@ == TyV::Builtin(BuiltinType::Boolean)
                && (r.expression matches TypedExprKind::Binary { left, operator: op, right } && op == BinOp::Eq
                    && right.expression == TypedExprKind::LiteralBool(false)
                    && ((typed_as(*ie, scopes, *left) && left.inferred_type@ == TyV::Builtin(BuiltinType::Boolean))
                        || fitted(*ie, scopes, TyV::Builtin(BuiltinType::Boolean), *left)))
        },
        ExpressionKind::AddressOf(ie) => r.expression matches TypedExprKind::AddressOf(inner)
            && r.inferred_type@ == TyV::Pointer(Box::new(inner.inferred_type@)) && typed_as(*ie, scopes, *inner),
        ExpressionKind::Dereference(ie) => r.expression matches TypedExprKind::Deref(inner)
            && inner.inferred_type@ == TyV::Pointer(Box::new(r.inferred_type@)) && typed_as(*ie, scopes, *inner),
        ExpressionKind::Cast { expr: ie, target_type } => r.inferred_type@ == type_of(&target_type)
            && (r.expression matches TypedExprKind::Cast { expr: inner, target_type: t } && t@ == type_of(&target_type)
                && typed_as(*ie, scopes, *inner)),
        ExpressionKind::IndexAccess { object: oe, index: xe } => r.expression matches TypedExprKind::IndexAccess { object, index }
            && typed_as(*oe, scopes, *object) && typed_as(*xe, scopes, *index)
            && integer_type(index.inferred_type@)
            && (object.inferred_type@ == TyV::Pointer(Box::new(r.inferred_type@))
                || (object.inferred_type@ matches TyV::Array { element_type, .. } && *element_type == r.inferred_type@)),
        ExpressionKind::ArrayLiteral { elements } => r.expression matches TypedExprKind::ArrayLiteral { elements: typed }
            && typed.len() == elements.len() && elements.len() > 0
            && (r.inferred_type@ matches TyV::Array { element_type, size } && size == elements.len()
                && *element_type == typed@[0].inferred_type@)
            && typed_as(elements@[0], scopes, typed@[0])
            && forall|k: int| 1 <= k < typed.len() ==> assign_fitted(elements@[k], scopes, typed@[0].inferred_type@, #[trigger] typed@[k]),
        ExpressionKind::Call { callee, args } => r.expression matches TypedExprKind::Call { callee: c, args: typed }
            && match callee.kind {
            ExpressionKind::Identifier(name) => match lookup_in(scopes, name@) {
                Some(TypedSymbol::GenericFunction(t)) => c@ == instance_name(t, args@),
                Some(TypedSymbol::Function(f)) => c@ == name@ && r.inferred_type@ == f.return_type@ && typed.len()
                    == args.len() && (if f.is_variadic {
                    args.len() >= f.params.len()
                } else {
                    args.len() == f.params.len()
                }) && (forall|i: int| 0 <= i < f.params.len() ==> #[trigger] typed@[i].inferred_type@ == f.params@[i].1@
                    && fitted(args@[i], scopes, f.params@[i].1@, typed@[i]))
                    && forall|i: int| f.params.len() <= i < args.len() ==> typed_as(args@[i], scopes, #[trigger] typed@[i]),
                _ => false,
            },
            _ => callee.kind is QualifiedAccess,
        },
        ExpressionKind::FieldAccess { object, field } => match named_enum(*object, scopes) {
            Some((name, _)) => r.inferred_type@ == TyV::Identifier(name) && (r.expression matches TypedExprKind::EnumLiteral {
                enum_name,
                variant,
                ..
            } && enum_name@ == name && variant@ == field@),
            None => r.expression matches TypedExprKind::FieldAccess { object: o, field: f, field_index } && f@ == field@
                && typed_as(*object, scopes, *o) && field_type(struct_fields_of(scopes, o.inferred_type@, alias_fuel(scopes)),
                field@) == Some(r.inferred_type@),
        },
        ExpressionKind::StructConstruct { struct_name, fields } => struct_built(struct_name@, scopes, r)
            && fields_fitted(fields@, scopes, r),
        ExpressionKind::EnumVariantConstruct { enum_name, variant, fields } => r.inferred_type@ == TyV::Identifier(enum_name@)
            && (r.expression matches TypedExprKind::EnumVariantConstruct { enum_name: n, variant: v, fields: tf, .. }
                && n@ == enum_name@ && v@ == variant@ && tf.len() == fields.len()
                && forall|i: int| 0 <= i < fields.len() ==> (#[trigger] tf@[i]).0@ == fields@[i].0@
                    && assign_fitted(fields@[i].1, scopes, tf@[i].1.inferred_type@, tf@[i].1)),
        ExpressionKind::QualifiedAccess { module, member } => r.expression matches TypedExprKind::QualifiedAccess { module: m, name: n }
            && m@ == module@ && n@ == member@,
        ExpressionKind::Grouping(inner) => typed_as(*inner, scopes, r),
        ExpressionKind::Slice { .. } => false,
    }
}

/// `r` constructs the struct type named `name`: it has that type, and its
/// fields are the declared ones, in declaration order, each of its declared
/// type.
pub open spec fn struct_built(name: Seq<char>, scopes: Seq<Scope>, r: TypedExpr) -> bool {
    match r.expression {
        TypedExprKind::StructConstruct { struct_name: sn, fields: tf } => sn@ == name && match lookup_in(scopes, name) {
            Some(TypedSymbol::Type(ty)) => r.inferred_type@ == ty@ && match struct_fields_of(scopes, ty@, alias_fuel(scopes)) {
                Some(fs) => tf.len() == fs.len() && forall|k: int|
                    0 <= k < fs.len() ==> (#[trigger] tf@[k]).0@ == fs[k].0 && tf@[k].1.inferred_type@ == fs[k].1,
                None => false,
            },
            _ => false,
        },
        _ => false,
    }
}

/// Forms that are rejected whatever the types of their operands are: an
/// unbound name, a wrong builtin arity, an unknown operator, an empty array
/// literal, a missing enum variant, an uncallable callee, a slice, and any
/// of the operator forms over a rejected operand.
pub open spec fn rejected(e: Expression, scopes: Seq<Scope>) -> bool
    decreases e,
{
    proof { assert(decreases_to!(e => e.kind)); }
    match e.kind {
        ExpressionKind::Identifier(name) => !(lookup_in(scopes, name@) matches Some(TypedSymbol::Binding(_)))
            && !(lookup_in(scopes, name@) matches Some(TypedSymbol::Type(_))),
        ExpressionKind::BuiltinCall { builtin, args } => args.len() != builtin_arity(builtin)
            || exists|k: int| 0 <= k < args.len() && rejected(#[trigger] args@[k], scopes),
        ExpressionKind::Binary { left, operator, right } => (!arithmetic_op(operator) && !comparison_op(operator)
            && !equality_op(operator) && !logical_op(operator)) || rejected(*left, scopes) || rejected(*right, scopes),
        ExpressionKind::Unary { operator, expression } => (operator != Operator::Minus && operator != Operator::Tilde
            && operator != Operator::LogicalNot) || rejected(*expression, scopes),
        ExpressionKind::AddressOf(inner) => rejected(*inner, scopes),
        ExpressionKind::Dereference(inner) => rejected(*inner, scopes),
        ExpressionKind::Cast { expr, .. } => rejected(*expr, scopes),
        ExpressionKind::IndexAccess { object, index } => rejected(*object, scopes) || rejected(*index, scopes),
        ExpressionKind::Grouping(inner) => rejected(*inner, scopes),
        ExpressionKind::ArrayLiteral { elements } => elements.len() == 0
            || exists|k: int| 0 <= k < elements.len() && rejected(#[trigger] elements@[k], scopes),
        ExpressionKind::FieldAccess { object, field } => match named_enum(*object, scopes) {
            Some((_, variants)) => forall|i: int| 0 <= i < variants.len() ==> (#[trigger] variants[i]).name != field@,
            None => rejected(*object, scopes),
        },
        ExpressionKind::Call { callee, args } => match callee.kind {
            ExpressionKind::Identifier(n) => match lookup_in(scopes, n@) {
                Some(TypedSymbol::Function(_)) => exists|k: int| 0 <= k < args.len() && rejected(#[trigger] args@[k], scopes),
                Some(TypedSymbol::GenericFunction(_)) => false,
                _ => true,
            },
            ExpressionKind::QualifiedAccess { .. } => false,
            _ => true,
        },
        ExpressionKind::StructConstruct { struct_name, .. } => !(lookup_in(scopes, struct_name@) matches Some(
            TypedSymbol::Type(_),
        )),
        ExpressionKind::Slice { .. } => true,
        _ => false,
    }
}

/// The type of an expression built from literals, names, type values,
/// grouping, address-of, casts and operators over operands of one type that
/// the operator takes; `None` outside that fragment.
pub open spec fn plain_type(e: Expression, scopes: Seq<Scope>) -> Option<TyV>
    decreases e,
{
    proof { assert(decreases_to!(e => e.kind)); }
    match e.kind {
        ExpressionKind::Literal(Literal::Integer(_)) => Some(TyV::Builtin(BuiltinType::Int4)),
        ExpressionKind::Literal(Literal::Boolean(_)) => Some(TyV::Builtin(BuiltinType::Boolean)),
        ExpressionKind::Literal(Literal::Float(_)) => Some(TyV::Builtin(BuiltinType::Float8)),
        ExpressionKind::Literal(Literal::Character(_)) => Some(TyV::Builtin(BuiltinType::Char)),
        ExpressionKind::Literal(Literal::String(raw)) => if unescape(raw@) is Some {
            Some(TyV::Builtin(BuiltinType::String))
        } else {
            None
        },
        ExpressionKind::Literal(Literal::Null) => Some(TyV::Builtin(BuiltinType::Never)),
        ExpressionKind::Identifier(name) => match lookup_in(scopes, name@) {
            Some(TypedSymbol::Binding(b)) => Some(b.ty@),
            Some(TypedSymbol::Type(_)) => Some(TyV::Type),
            _ => None,
        },
        ExpressionKind::TypeValue(_) => Some(TyV::Type),
        ExpressionKind::Grouping(inner) => plain_type(*inner, scopes),
        ExpressionKind::Dereference(inner) => match plain_type(*inner, scopes) {
            Some(TyV::Pointer(p)) => Some(*p),
            _ => None,
        },
        ExpressionKind::FieldAccess { object, field } => match named_enum(*object, scopes) {
            None => match plain_type(*object, scopes) {
                Some(ot) => field_type(struct_fields_of(scopes, ot, alias_fuel(scopes)), field@),
                None => None,
            },
            Some((name, variants)) => if exists|i: int| 0 <= i < variants.len() && (#[trigger] variants[i]).name == field@ {
                Some(TyV::Identifier(name))
            } else {
                None
            },
        },
        ExpressionKind::IndexAccess { object, index } => match (plain_type(*object, scopes), plain_type(*index, scopes)) {
            (Some(TyV::Pointer(p)), Some(it)) => if integer_type(it) {
                Some(*p)
            } else {
                None
            },
            (Some(TyV::Array { element_type, .. }), Some(it)) => if integer_type(it) {
                Some(*element_type)
            } else {
                None
            },
            _ => None,
        },
        ExpressionKind::AddressOf(inner) => match plain_type(*inner, scopes) {
            Some(t) => Some(TyV::Pointer(Box::new(t))),
            None => None,
        },
        ExpressionKind::Cast { expr, target_type } => if plain_type(*expr, scopes) is Some {
            Some(type_of(&target_type))
        } else {
            None
        },
        ExpressionKind::Unary { operator, expression } => match plain_type(*expression, scopes) {
            Some(t) => if operator == Operator::Minus || operator == Operator::Tilde {
                Some(t)
            } else if operator == Operator::LogicalNot && t == TyV::Builtin(BuiltinType::Boolean) {
                Some(t)
            } else {
                None
            },
            None => None,
        },
        ExpressionKind::Binary { left, operator, right } => match (plain_type(*left, scopes), plain_type(*right, scopes)) {
            (Some(l), Some(r)) => if l != r && !(right.kind matches ExpressionKind::Literal(Literal::Integer(_)) && integer_type(l)) {
                None
            } else if logical_op(operator) {
                if l == TyV::Builtin(BuiltinType::Boolean) { Some(l) } else { None }
            } else if arithmetic_op(operator) {
                if numeric_type(l) { Some(l) } else { None }
            } else if comparison_op(operator) {
                if numeric_type(l) { Some(TyV::Builtin(BuiltinType::Boolean)) } else { None }
            } else if equality_op(operator) {
                Some(TyV::Builtin(BuiltinType::Boolean))
            } else {
                None
            },
            _ => None,
        },
        ExpressionKind::BuiltinCall { builtin, args } => if args.len() == builtin_arity(builtin) && forall|i: int|
            0 <= i < args.len() ==> plain_type(#[trigger] args@[i], scopes) == Some(TyV::Builtin(BuiltinType::String)) {
            Some(TyV::Builtin(builtin_result(builtin)))
        } else {
            None
        },
        ExpressionKind::Call { callee, args } => match callee.kind {
            ExpressionKind::Identifier(name) => match lookup_in(scopes, name@) {
                Some(TypedSymbol::Function(f)) => if !f.is_variadic && args.len() == f.params.len() && forall|i: int|
                    0 <= i < args.len() ==> plain_type(#[trigger] args@[i], scopes) == Some(f.params@[i].1@) {
                    Some(f.return_type@)
                } else {
                    None
                },
                _ => None,
            },
            _ => None,
        },
        ExpressionKind::ArrayLiteral { elements } => if elements.len() > 0 && plain_type(elements@[0], scopes) is Some && forall|k: int|
            1 <= k < elements.len() ==> plain_type(#[trigger] elements@[k], scopes) is Some && plain_fits(
                scopes,
                elements@[k],
                plain_type(elements@[k], scopes)->0,
                plain_type(elements@[0], scopes)->0,
            ) {
            Some(TyV::Array { element_type: Box::new(plain_type(elements@[0], scopes)->0), size: elements.len() as u64 })
        } else {
            None
        },
        _ => None,
    }
}

/// The type of the first field named `name` of a struct with fields `fs`.
pub open spec fn field_type(fs: Option<Seq<(Seq<char>, TyV)>>, name: Seq<char>) -> Option<TyV> {
    match fs {
        Some(fs) => if exists|i: int| 0 <= i < fs.len() && (#[trigger] fs[i]).0 == name {
            let i = choose|i: int| 0 <= i < fs.len() && (#[trigger] fs[i]).0 == name && forall|j: int|
                0 <= j < i ==> (#[trigger] fs[j]).0 != name;
            Some(fs[i].1)
        } else {
            None
        },
        None => None,
    }
}

/// The first field of a name is the one `field_type` gives.
proof fn lemma_field_type(fs: Seq<(Seq<char>, TyV)>, name: Seq<char>, i: int)
    requires
        0 <= i < fs.len(),
        fs[i].0 == name,
        forall|j: int| 0 <= j < i ==> (#[trigger] fs[j]).0 != name,
    ensures
        field_type(Some(fs), name) == Some(fs[i].1),
{
    let k = choose|k: int| 0 <= k < fs.len() && (#[trigger] fs[k]).0 == name && forall|j: int| 0 <= j < k ==> (#[trigger] fs[j]).0 != name;
    assert(0 <= k < fs.len() && fs[k].0 == name && forall|j: int| 0 <= j < k ==> (#[trigger] fs[j]).0 != name);
    if k < i {
        assert(fs[k].0 != name);
    } else if i < k {
        assert(fs[i].0 != name);
    }
}

/// The message of a name that nothing in scope binds.
pub open spec fn unbound_text(name: Seq<char>) -> Seq<char> {
    "expr_to_typed: identifier "@ + name + " not found in scope"@
}

/// A plain argument that fits `@string`: a string, or `null`.
pub open spec fn string_arg(e: Expression, scopes: Seq<Scope>) -> bool {
    plain_type(e, scopes) == Some(TyV::Builtin(BuiltinType::String)) || plain_type(e, scopes) == Some(TyV::Builtin(BuiltinType::Never))
}

/// The argument at `k` is the first one of a string builtin call that does
/// not fit `@string`, and it and those before it are plain.
pub open spec fn first_non_string(args: Seq<Expression>, scopes: Seq<Scope>, k: int) -> bool {
    &&& 0 <= k < args.len()
    &&& plain_type(args[k], scopes) is Some
    &&& !string_arg(args[k], scopes)
    &&& forall|j: int| 0 <= j < k ==> string_arg(#[trigger] args[j], scopes)
}

/// How a call of the string builtin `builtin` fails: with the arity message
/// when the argument count is wrong, and with the argument message naming
/// the first plain argument that is not a string.
pub open spec fn builtin_errors(builtin: BuiltinFunction, args: Seq<Expression>, scopes: Seq<Scope>, r: Result<TypedExpr, AnalysisError>) -> bool {
    &&& args.len() != builtin_arity(builtin) ==> (r matches Err(er) && er.message@ == function_spelling(builtin) + " expects "@
        + decimal(builtin_arity(builtin)) + " argument(s), but "@ + decimal(args.len()) + " were given"@)
    &&& forall|k: int| args.len() == builtin_arity(builtin) && #[trigger] first_non_string(args, scopes, k) ==> (r matches Err(er)
        && er.message@ == function_spelling(builtin) + ": argument "@ + decimal((k + 1) as nat) + " expects type @string, but found "@
            + type_text(plain_type(args[k], scopes)->0))
}

/// Of an array literal whose elements are all plain, element `k` is the
/// first after the first one that does not fit the first one's type.
pub open spec fn first_misfit(elements: Seq<Expression>, scopes: Seq<Scope>, k: int) -> bool {
    &&& 1 <= k < elements.len()
    &&& forall|j: int| 0 <= j < elements.len() ==> (#[trigger] plain_type(elements[j], scopes)) is Some
    &&& !plain_fits(scopes, elements[k], plain_type(elements[k], scopes)->0, plain_type(elements[0], scopes)->0)
    &&& forall|j: int| 1 <= j < k ==> plain_fits(scopes, #[trigger] elements[j], plain_type(elements[j], scopes)->0,
        plain_type(elements[0], scopes)->0)
}

/// How an array literal fails: empty, or with its first misfitting element.
pub open spec fn array_errors(elements: Seq<Expression>, scopes: Seq<Scope>, r: Result<TypedExpr, AnalysisError>) -> bool {
    &&& elements.len() == 0 ==> (r matches Err(er) && er.message@ == "array literal must have at least one element"@)
    &&& forall|k: int| #[trigger] first_misfit(elements, scopes, k) ==> (r matches Err(er) && er.message@ == "array literal: element "@
        + decimal(k as nat) + " has incompatible type "@ + type_text(plain_type(elements[k], scopes)->0) + ", expected "@
        + type_text(plain_type(elements[0], scopes)->0))
}

/// An integer or character literal, possibly in parentheses: the forms
/// typed as an integer literal.
pub open spec fn int_literal(e: Expression) -> bool
    decreases e,
{
    match e.kind {
        ExpressionKind::Literal(Literal::Integer(_)) | ExpressionKind::Literal(Literal::Character(_)) => true,
        ExpressionKind::Grouping(inner) => int_literal(*inner),
        _ => false,
    }
}

/// A float literal, possibly in parentheses.
pub open spec fn float_literal(e: Expression) -> bool
    decreases e,
{
    match e.kind {
        ExpressionKind::Literal(Literal::Float(_)) => true,
        ExpressionKind::Grouping(inner) => float_literal(*inner),
        _ => false,
    }
}

/// The plain expression `e`, of type `src`, fits `dst` by the assignment
/// rule: equal types or aliases of one structure, `null`, a literal of the
/// same number kind, or a numeric conversion.
pub open spec fn plain_fits(scopes: Seq<Scope>, e: Expression, src: TyV, dst: TyV) -> bool {
    src == dst || resolved(scopes, dst) == resolved(scopes, src) || src == TyV::Builtin(BuiltinType::Never)
        || (int_literal(e) && integer_type(src) && integer_type(dst)) || (float_literal(e) && float_type(src) && float_type(dst))
        || (numeric_type(src) && numeric_type(dst))
}

/// A typing of a plain expression is an integer (float) literal exactly
/// when the expression is one.
pub proof fn lemma_plain_kind(e: Expression, scopes: Seq<Scope>, t: TypedExpr)
    requires
        typed_as(e, scopes, t),
        plain_type(e, scopes) is Some,
    ensures
        t.expression is LiteralInt <==> int_literal(e),
        t.expression is LiteralFloat <==> float_literal(e),
    decreases e,
{
    if let ExpressionKind::Grouping(inner) = e.kind {
        lemma_plain_kind(*inner, scopes, t);
    }
}

/// For a typing `t` of a plain expression `e`, the assignment rule rejects
/// fitting it to `dst` exactly when `plain_fits` does not hold.
pub proof fn lemma_plain_fits(e: Expression, scopes: Seq<Scope>, t: TypedExpr, dst: TyV)
    requires
        typed_as(e, scopes, t),
        plain_type(e, scopes) == Some(t.inferred_type@),
    ensures
        (assign_coercion(scopes, t.expression, t.inferred_type@, dst) is Reject) <==> !plain_fits(scopes, e, t.inferred_type@, dst),
{
    lemma_plain_kind(e, scopes, t);
}

/// A typing of an expression of the plain fragment has its plain type.
#[verifier::spinoff_prover]
#[verifier::rlimit(40)]
pub proof fn lemma_plain_type(e: Expression, scopes: Seq<Scope>, t: TypedExpr)
    requires
        typed_as(e, scopes, t),
        plain_type(e, scopes) is Some,
    ensures
        t.inferred_type@ == plain_type(e, scopes)->0,
    decreases e,
{
    match e.kind {
        ExpressionKind::Grouping(inner) => {
            lemma_plain_type(*inner, scopes, t);
        },
        ExpressionKind::AddressOf(inner) => {
            if let TypedExprKind::AddressOf(ti) = t.expression {
                lemma_plain_type(*inner, scopes, *ti);
            }
        },
        ExpressionKind::Unary { operator, expression } => {
            if let TypedExprKind::Binary { left, operator: op, right } = t.expression {
                if operator == Operator::Minus {
                    lemma_plain_type(*expression, scopes, *right);
                } else if operator == Operator::Tilde {
                    lemma_plain_type(*expression, scopes, *left);
                }
            }
        },
        ExpressionKind::Binary { left, operator, right } => {
            if arithmetic_op(operator) {
                if let TypedExprKind::Binary { left: tl, .. } = t.expression {
                    lemma_plain_type(*left, scopes, *tl);
                }
            }
        },
        ExpressionKind::ArrayLiteral { elements } => {
            if let TypedExprKind::ArrayLiteral { elements: typed } = t.expression {
                lemma_plain_type(elements@[0], scopes, typed@[0]);
            }
        },
        ExpressionKind::Dereference(inner) => {
            if let TypedExprKind::Deref(ti) = t.expression {
                lemma_plain_type(*inner, scopes, *ti);
            }
        },
        ExpressionKind::FieldAccess { object, .. } => {
            if let TypedExprKind::FieldAccess { object: to, .. } = t.expression {
                lemma_plain_type(*object, scopes, *to);
            }
        },
        ExpressionKind::IndexAccess { object, index } => {
            if let TypedExprKind::IndexAccess { object: to, index: tx } = t.expression {
                lemma_plain_type(*object, scopes, *to);
            }
        },
        _ => {},
    }
}

/// A call of a plain callee whose arguments were typed against the callee's
/// parameter types is typed as `typed_as` says.
proof fn lemma_call_typed(e: Expression, scopes: Seq<Scope>, made: TypedExpr, params: Seq<(Identifier, Ty)>, is_variadic: bool)
    requires
        e.kind matches ExpressionKind::Call { callee, args } && (made.expression matches TypedExprKind::Call { callee: c, args: typed }
            && typed.len() == args.len() && (if is_variadic { args.len() >= params.len() } else { args.len() == params.len() })
            && (forall|i: int| 0 <= i < params.len() ==> #[trigger] typed@[i].inferred_type@ == params[i].1@ && fitted(
                args@[i],
                scopes,
                params[i].1@,
                typed@[i],
            )) && (forall|i: int| params.len() <= i < args.len() ==> typed_as(args@[i], scopes, #[trigger] typed@[i]))
            && match callee.kind {
            ExpressionKind::Identifier(name) => lookup_in(scopes, name@) matches Some(TypedSymbol::Function(f)) && c@ == name@
                && made.inferred_type@ == f.return_type@ && is_variadic == f.is_variadic && params.len() == f.params.len()
                && forall|i: int| 0 <= i < f.params.len() ==> #[trigger] params[i].1@ == f.params@[i].1@,
            ExpressionKind::QualifiedAccess { .. } => true,
            _ => false,
        }),
    ensures
        typed_as(e, scopes, made),
{
    if let ExpressionKind::Call { callee, args } = e.kind {
        if let TypedExprKind::Call { callee: c, args: typed } = made.expression {
            if let ExpressionKind::Identifier(name) = callee.kind {
                if let Some(TypedSymbol::Function(f)) = lookup_in(scopes, name@) {
                    assert forall|i: int| 0 <= i < f.params.len() implies #[trigger] typed@[i].inferred_type@ == f.params@[i].1@
                        && fitted(args@[i], scopes, f.params@[i].1@, typed@[i]) by {
                        assert(params[i].1@ == f.params@[i].1@);
                    }
                }
            }
        }
    }
}

fn too_deep() -> (e: AnalysisError)
    ensures
        e.kind == ErrorKind::Type,
        e.span is None,
        e.hint is None,
        e.message@ == "generic instantiation nested too deeply"@,
{
    AnalysisError::from_str("generic instantiation nested too deeply")
}

/// Type `expr` in `scope`. `fuel` bounds how deeply generic instantiations
/// may nest.
#[verifier::spinoff_prover]
#[verifier::rlimit(40)]
pub fn expr_to_typed(expr: Expression, scope: &SymbolTable, cache: &mut GenericCache, fuel: usize) -> (r: Result<TypedExpr, AnalysisError>)
    requires
        old(cache).wf(),
        scope.scopes.len() > 0,
    ensures
        plain_type(expr, scope.scopes@) is Some ==> *final(cache) == *old(cache),
        final(cache).wf(),
        r matches Ok(t) ==> typed_as(expr, scope.scopes@, t),
        rejected(expr, scope.scopes@) ==> r is Err,
        plain_type(expr, scope.scopes@) matches Some(ty) ==> (r matches Ok(t) && t.inferred_type@ == ty),
        expr.kind matches ExpressionKind::BuiltinCall { builtin, args } ==> builtin_errors(builtin, args@, scope.scopes@, r),
        expr.kind matches ExpressionKind::ArrayLiteral { elements } ==> array_errors(elements@, scope.scopes@, r),
        expr.kind matches ExpressionKind::Identifier(name) ==> (lookup_in(scope.scopes@, name@) is None ==> (r matches Err(e)
            && e.message@ == unbound_text(name@) && e.span is None)),
        expr.kind matches ExpressionKind::Call { callee, .. } ==> (callee.kind matches ExpressionKind::QualifiedAccess { module, member }
            ==> (exported_function(scope.modules@, module@, member@) matches Some(f) ==> (r matches Ok(t) ==> (t.expression matches TypedExprKind::Call {
            callee: c,
            ..
        } && t.inferred_type@ == f.return_type@ && (f.is_extern ==> c@ == member@) && (!f.is_extern ==> c@ == module@ + "__"@ + member@))))),
    decreases fuel, 0nat, expr,
{
    let ghost e0 = expr;
    let res = match expr.kind {
        ExpressionKind::Literal(lit) => match lit {
            Literal::Integer(value) => Ok(TypedExpr {
                inferred_type: Ty::Builtin(BuiltinType::Int4),
                expression: TypedExprKind::LiteralInt { value },
            }),
            Literal::Boolean(b) => Ok(TypedExpr {
                inferred_type: Ty::Builtin(BuiltinType::Boolean),
                expression: TypedExprKind::LiteralBool(b),
            }),
            Literal::Float(f) => Ok(TypedExpr {
                inferred_type: Ty::Builtin(BuiltinType::Float8),
                expression: TypedExprKind::LiteralFloat { value: f },
            }),
            Literal::Character(c) => Ok(TypedExpr {
                inferred_type: Ty::Builtin(BuiltinType::Char),
                expression: TypedExprKind::LiteralInt { value: c as u64 },
            }),
            Literal::String(raw) => {
                let value = process_escape_sequences(raw.as_str())?;
                Ok(TypedExpr {
                    inferred_type: Ty::Builtin(BuiltinType::String),
                    expression: TypedExprKind::LiteralString { value },
                })
            },
            Literal::Null => Ok(TypedExpr {
                inferred_type: Ty::Builtin(BuiltinType::Never),
                expression: TypedExprKind::Null,
            }),
        },
        ExpressionKind::BuiltinCall { builtin, args } => builtin_call_to_typed(builtin, args, scope, cache, fuel, Ghost(e0)),
        ExpressionKind::Identifier(name) => {
            match scope.lookup(&name) {
                Some(TypedSymbol::Binding(var)) => Ok(TypedExpr {
                    inferred_type: var.ty.copy(),
                    expression: TypedExprKind::Identifier(name),
                }),
                Some(TypedSymbol::Type(ty)) => Ok(TypedExpr {
                    inferred_type: Ty::Type,
                    expression: TypedExprKind::ComptimeType(ty.copy()),
                }),
                Some(_) => Err(AnalysisError::from_message(message3("expr_to_typed: identifier ", name.value.as_str(), " is not a variable"))),
                None => Err(AnalysisError::from_message(message3("expr_to_typed: identifier ", name.value.as_str(), " not found in scope"))),
            }
        },
        ExpressionKind::TypeValue(te) => {
            let t = map_type(&te);
            Ok(TypedExpr { inferred_type: Ty::Type, expression: TypedExprKind::ComptimeType(t) })
        },
        ExpressionKind::Grouping(inner) => expr_to_typed(*inner, scope, cache, fuel),
        ExpressionKind::Binary { left, operator, right } => {
            let is_arith = match operator {
                Operator::Plus | Operator::Minus | Operator::Star | Operator::Slash | Operator::Percent
                | Operator::RightShift | Operator::LeftShift | Operator::Ampersand | Operator::Pipe
                | Operator::Caret => true,
                _ => false,
            };
            let is_relational = match operator {
                Operator::GreaterThan | Operator::GreaterEqual | Operator::LesserThan | Operator::LesserEqual => true,
                _ => false,
            };
            let is_eq = match operator {
                Operator::DoubleEquals | Operator::Different => true,
                _ => false,
            };
            let is_logic = match operator {
                Operator::LogicalAnd | Operator::LogicalOr => true,
                _ => false,
            };
            if !is_arith && !is_relational && !is_eq && !is_logic {
                return Err(AnalysisError::from_str("unsupported binary operator"));
            }
            let ghost le = *left;
            let ghost re = *right;
            let l = expr_to_typed(*left, scope, cache, fuel)?;
            let r = expr_to_typed(*right, scope, cache, fuel)?;
            let ghost l0 = l;
            let ghost r0 = r;
            proof {
                assert(typed_as(le, scope.scopes@, l0));
                assert(typed_as(re, scope.scopes@, r0));
                if plain_type(e0, scope.scopes@) is Some {
                    lemma_plain_type(le, scope.scopes@, l0);
                    lemma_plain_type(re, scope.scopes@, r0);
                }
            }
            binary_to_typed(l, operator, r, Ghost(e0), Ghost(scope.scopes@))
        },
        ExpressionKind::Unary { operator, expression } => {
            if operator != Operator::Minus && operator != Operator::Tilde && operator != Operator::LogicalNot {
                return Err(AnalysisError::from_str("unsupported unary operator"));
            }
            let ghost ie = *expression;
            let inner = expr_to_typed(*expression, scope, cache, fuel)?;
            let ghost i0 = inner;
            proof {
                assert(typed_as(ie, scope.scopes@, i0));
                if plain_type(e0, scope.scopes@) is Some {
                    lemma_plain_type(ie, scope.scopes@, i0);
                }
            }
            unary_to_typed(inner, operator, Ghost(e0), Ghost(scope.scopes@))
        },
        ExpressionKind::AddressOf(inner) => {
            let ghost ie = *inner;
            let inner_typed = expr_to_typed(*inner, scope, cache, fuel)?;
            proof {
                assert(typed_as(ie, scope.scopes@, inner_typed));
            }
            let t = Ty::Pointer(Box::new(inner_typed.inferred_type.copy()));
            Ok(TypedExpr { inferred_type: t, expression: TypedExprKind::AddressOf(Box::new(inner_typed)) })
        },
        ExpressionKind::Dereference(inner) => {
            let ghost ie = *inner;
            let inner_typed = expr_to_typed(*inner, scope, cache, fuel)?;
            proof {
                assert(typed_as(ie, scope.scopes@, inner_typed));
            }
            proof {
                if plain_type(e0, scope.scopes@) is Some {
                    lemma_plain_type(ie, scope.scopes@, inner_typed);
                }
            }
            let pointee = match &inner_typed.inferred_type {
                Ty::Pointer(p) => (**p).copy(),
                other => {
                    return Err(AnalysisError::from_message(message2("dereference of non-pointer type ", describe_type(other).as_str())));
                },
            };
            Ok(TypedExpr { inferred_type: pointee, expression: TypedExprKind::Deref(Box::new(inner_typed)) })
        },
        ExpressionKind::Cast { expr: inner, target_type } => {
            let ghost ie = *inner;
            let inner_typed = expr_to_typed(*inner, scope, cache, fuel)?;
            proof {
                assert(typed_as(ie, scope.scopes@, inner_typed));
            }
            let t = map_type(&target_type);
            let t2 = t.copy();
            Ok(TypedExpr { inferred_type: t, expression: TypedExprKind::Cast { expr: Box::new(inner_typed), target_type: t2 } })
        },
        ExpressionKind::IndexAccess { object, index } => {
            let ghost oe = *object;
            let ghost xe = *index;
            let obj = expr_to_typed(*object, scope, cache, fuel)?;
            let idx = expr_to_typed(*index, scope, cache, fuel)?;
            proof {
                assert(typed_as(oe, scope.scopes@, obj));
                assert(typed_as(xe, scope.scopes@, idx));
                if plain_type(e0, scope.scopes@) is Some {
                    lemma_plain_type(oe, scope.scopes@, obj);
                    lemma_plain_type(xe, scope.scopes@, idx);
                }
            }
            require_integer_index(&idx.inferred_type, "index access")?;
            let elem = match &obj.inferred_type {
                Ty::Pointer(p) => (**p).copy(),
                Ty::Array { element_type, .. } => (**element_type).copy(),
                other => {
                    return Err(AnalysisError::from_message(message2("index access on non-pointer type ", describe_type(other).as_str())));
                },
            };
            Ok(TypedExpr { inferred_type: elem, expression: TypedExprKind::IndexAccess { object: Box::new(obj), index: Box::new(idx) } })
        },
        ExpressionKind::Slice { .. } => Err(AnalysisError::from_str("slice expressions are not supported by the type checker")),
        ExpressionKind::ArrayLiteral { elements } => array_literal_to_typed(elements, scope, cache, fuel, Ghost(e0)),
        ExpressionKind::Call { callee, args } => match call_target(&callee, scope)? {
            CallTarget::Generic(template) => generic_call_to_typed(template, args, scope, cache, fuel),
            CallTarget::Plain { callee, display, params, return_type, is_variadic } => {
                proof {
                    if plain_type(e0, scope.scopes@) is Some {
                        assert forall|i: int| 0 <= i < params.len() implies plain_type(#[trigger] args@[i], scope.scopes@)
                            == Some(params@[i].1@) by {}
                    }
                }
                let ghost pv = params@;
                let hargs = check_call_args(display.as_str(), &params, is_variadic, args, scope, cache, fuel)?;
                let made = TypedExpr { inferred_type: return_type, expression: TypedExprKind::Call { callee, args: hargs } };
                proof { lemma_call_typed(e0, scope.scopes@, made, pv, is_variadic); }
                Ok(made)
            },
        },
        ExpressionKind::FieldAccess { object, field } => {
            match enum_literal(&object, &field, scope) {
                Some(r) => {
                    return r;
                },
                None => {},
            }
            let ghost oe = *object;
            let ghost fe = field;
            let obj = expr_to_typed(*object, scope, cache, fuel)?;
            let ghost o0 = obj;
            proof {
                assert(typed_as(oe, scope.scopes@, obj));
                if plain_type(e0, scope.scopes@) is Some {
                    lemma_plain_type(oe, scope.scopes@, obj);
                }
            }
            let read = field_read(obj, field, scope);
            proof {
                if read is Ok {
                    let t = read->Ok_0;
                    let fs = struct_fields_of(scope.scopes@, o0.inferred_type@, alias_fuel(scope.scopes@))->Some_0;
                    let idx = t.expression->FieldAccess_field_index;
                    lemma_field_type(fs, fe@, idx as int);
                }
                if plain_type(e0, scope.scopes@) is Some {
                    let fs = struct_fields_of(scope.scopes@, o0.inferred_type@, alias_fuel(scope.scopes@))->Some_0;
                    assert(exists|i: int| 0 <= i < fs.len() && (#[trigger] fs[i]).0 == fe@);
                }
            }
            read
        },
        ExpressionKind::StructConstruct { struct_name, fields } => struct_construct_to_typed(struct_name, fields, scope, cache, fuel),
        ExpressionKind::EnumVariantConstruct { enum_name, variant, fields } => variant_construct_to_typed(enum_name, variant, fields, scope, cache, fuel),
        ExpressionKind::QualifiedAccess { module, member } => {
            let typed_module = match scope.lookup_module(module.value.as_str()) {
                Some(m) => m,
                None => {
                    return Err(AnalysisError::from_message(message3("unknown module '", module.value.as_str(), "'")));
                },
            };
            let sym = match crate::frontend::typed_ast::find_last_index(&typed_module.exports, &member) {
                Some(i) => &typed_module.exports[i].1,
                None => {
                    return Err(AnalysisError::from_message(message3("'", member.value.as_str(), "' not found in module")));
                },
            };
            let inferred_type = match sym {
                TypedSymbol::Binding(b) => b.ty.copy(),
                TypedSymbol::Function(f) => {
                    let mut argument_types: Vec<Ty> = Vec::new();
                    let mut i: usize = 0;
                    while i < f.params.len()
                        decreases f.params.len() - i,
                    {
                        argument_types.push(f.params[i].1.copy());
                        i = i + 1;
                    }
                    Ty::Function { argument_types, return_type: Box::new(f.return_type.copy()) }
                },
                TypedSymbol::Type(t) => t.copy(),
                TypedSymbol::GenericFunction(_) => {
                    return Err(AnalysisError::from_message(message3("'", member.value.as_str(), "' is a generic function and cannot be used as a value")));
                },
            };
            Ok(TypedExpr {
                inferred_type,
                expression: TypedExprKind::QualifiedAccess { module: module.value, name: member },
            })
        },
    };
    proof {
        assert(e0.kind is Literal ==> (res matches Ok(t) ==> typed_as(e0, scope.scopes@, t)));
        assert(e0.kind is BuiltinCall ==> (res matches Ok(t) ==> typed_as(e0, scope.scopes@, t)));
        assert(e0.kind is Identifier ==> (res matches Ok(t) ==> typed_as(e0, scope.scopes@, t)));
        assert(e0.kind is TypeValue ==> (res matches Ok(t) ==> typed_as(e0, scope.scopes@, t)));
        assert(e0.kind is Grouping ==> (res matches Ok(t) ==> typed_as(e0, scope.scopes@, t)));
        assert(e0.kind is Binary ==> (res matches Ok(t) ==> typed_as(e0, scope.scopes@, t)));
        assert(e0.kind is Unary ==> (res matches Ok(t) ==> typed_as(e0, scope.scopes@, t)));
        assert(e0.kind is AddressOf ==> (res matches Ok(t) ==> typed_as(e0, scope.scopes@, t)));
        assert(e0.kind is Dereference ==> (res matches Ok(t) ==> typed_as(e0, scope.scopes@, t)));
        assert(e0.kind is Cast ==> (res matches Ok(t) ==> typed_as(e0, scope.scopes@, t)));
        assert(e0.kind is IndexAccess ==> (res matches Ok(t) ==> typed_as(e0, scope.scopes@, t)));
        assert(e0.kind is Slice ==> (res matches Ok(t) ==> typed_as(e0, scope.scopes@, t)));
        assert(e0.kind is ArrayLiteral ==> (res matches Ok(t) ==> typed_as(e0, scope.scopes@, t)));
        assert(e0.kind is Call ==> (res matches Ok(t) ==> typed_as(e0, scope.scopes@, t)));
        assert(e0.kind is FieldAccess ==> (res matches Ok(t) ==> typed_as(e0, scope.scopes@, t)));
        assert(e0.kind is StructConstruct ==> (res matches Ok(t) ==> typed_as(e0, scope.scopes@, t)));
        assert(e0.kind is EnumVariantConstruct ==> (res matches Ok(t) ==> typed_as(e0, scope.scopes@, t)));
        assert(e0.kind is QualifiedAccess ==> (res matches Ok(t) ==> typed_as(e0, scope.scopes@, t)));
        if res is Ok && plain_type(e0, scope.scopes@) is Some {
            lemma_plain_type(e0, scope.scopes@, res->Ok_0);
        }
    }
    res
}

/// `@builtin(args)`: the argument count checked, each argument typed and
/// fitted to `@string`.
fn builtin_call_to_typed(
    builtin: BuiltinFunction,
    args: Vec<Expression>,
    scope: &SymbolTable,
    cache: &mut GenericCache,
    fuel: usize,
    Ghost(e): Ghost<Expression>,
) -> (r: Result<TypedExpr, AnalysisError>)
    requires
        old(cache).wf(),
        scope.scopes.len() > 0,
        e.kind == (ExpressionKind::BuiltinCall { builtin, args }),
    ensures
        args.len() == builtin_arity(builtin) && (forall|i: int| 0 <= i < args.len()
            ==> plain_type(#[trigger] args@[i], scope.scopes@) == Some(TyV::Builtin(BuiltinType::String))) ==> *final(cache) == *old(cache),
        final(cache).wf(),
        r matches Ok(t) ==> typed_as(e, scope.scopes@, t),
        rejected(e, scope.scopes@) ==> r is Err,
        args.len() == builtin_arity(builtin) && (forall|i: int| 0 <= i < args.len()
            ==> plain_type(#[trigger] args@[i], scope.scopes@) == Some(TyV::Builtin(BuiltinType::String))) ==> r is Ok,
        builtin_errors(builtin, args@, scope.scopes@, r),
    decreases fuel, 0nat, args,
{
    let arity: usize = match builtin {
        BuiltinFunction::StrLen => 1,
        BuiltinFunction::Concat => 2,
        BuiltinFunction::StrEq => 2,
    };
    let ret = match builtin {
        BuiltinFunction::StrLen => Ty::Builtin(BuiltinType::UInt8),
        BuiltinFunction::Concat => Ty::Builtin(BuiltinType::String),
        BuiltinFunction::StrEq => Ty::Builtin(BuiltinType::Boolean),
    };
    if args.len() != arity {
        let mut m = str_to_string(builtin.spelling());
        push_str(&mut m, " expects ");
        push_str(&mut m, usize_to_string(arity).as_str());
        push_str(&mut m, " argument(s), but ");
        push_str(&mut m, usize_to_string(args.len()).as_str());
        push_str(&mut m, " were given");
        return Err(AnalysisError::from_message(m));
    }
    let string_ty = Ty::Builtin(BuiltinType::String);
    let ghost orig = args;
    let n = args.len();
    let mut rest = args;
    let mut hargs: Vec<TypedExpr> = Vec::new();
    let mut i: usize = 0;
    while i < n
        invariant
            n == orig.len(),
            0 <= i <= n,
            rest@ == orig@.subrange(i as int, n as int),
            hargs.len() == i,
            forall|j: int| 0 <= j < i ==> #[trigger] hargs@[j].inferred_type@ == TyV::Builtin(BuiltinType::String)
                && fitted(orig@[j], scope.scopes@, TyV::Builtin(BuiltinType::String), hargs@[j]),
            forall|j: int| 0 <= j < i ==> !rejected(#[trigger] orig@[j], scope.scopes@),
            string_ty@ == TyV::Builtin(BuiltinType::String),
            cache.wf(),
            (forall|j: int| 0 <= j < orig.len() ==> plain_type(#[trigger] orig@[j], scope.scopes@) is Some) ==> *cache == *old(cache),
            n == builtin_arity(builtin),
            forall|k: int| 0 <= k < i ==> !(#[trigger] first_non_string(orig@, scope.scopes@, k)),
        decreases n - i,
    {
        let arg = rest.remove(0);
        proof {
            assert(arg == orig@[i as int]);
            assert(decreases_to!(orig => orig@));
            assert(decreases_to!(orig@ => orig@[i as int]));
            assert(rest@ =~= orig@.subrange(i + 1, n as int));
        }
        proof {
            assert forall|k: int| i < k < n && #[trigger] first_non_string(orig@, scope.scopes@, k)
                implies string_arg(orig@[i as int], scope.scopes@) by {}
        }
        let harg = expr_to_typed(arg, scope, cache, fuel)?;
        let ghost h0 = harg;
        let found = describe_type(&harg.inferred_type);
        match coerce_expr_to_type(harg, &string_ty) {
            Ok(h) => {
                proof {
                    assert(coerced(h0, string_ty@, coercion(h0.expression, h0.inferred_type@, string_ty@), Ok::<TypedExpr, AnalysisError>(h)));
                    assert(fitted(orig@[i as int], scope.scopes@, string_ty@, h));
                }
                hargs.push(h);
            },
            Err(_) => {
                proof {
                    assert forall|k: int| #[trigger] first_non_string(orig@, scope.scopes@, k) implies k == i by {
                        if k > i {
                            assert(string_arg(orig@[i as int], scope.scopes@));
                        }
                    }
                }
                let mut m = str_to_string(builtin.spelling());
                push_str(&mut m, ": argument ");
                push_str(&mut m, usize_to_string(i + 1).as_str());
                push_str(&mut m, " expects type @string, but found ");
                push_str(&mut m, found.as_str());
                return Err(AnalysisError::from_message(m));
            },
        }
        i = i + 1;
    }
    Ok(TypedExpr { inferred_type: ret, expression: TypedExprKind::BuiltinCall { builtin, args: hargs } })
}

/// `[e, ...]`: every element typed, the later ones fitted to the type of
/// the first by the assignment rule.
fn array_literal_to_typed(
    elements: Vec<Expression>,
    scope: &SymbolTable,
    cache: &mut GenericCache,
    fuel: usize,
    Ghost(e): Ghost<Expression>,
) -> (r: Result<TypedExpr, AnalysisError>)
    requires
        old(cache).wf(),
        scope.scopes.len() > 0,
        e.kind == (ExpressionKind::ArrayLiteral { elements }),
    ensures
        plain_type(e, scope.scopes@) is Some ==> *final(cache) == *old(cache),
        final(cache).wf(),
        r matches Ok(t) ==> typed_as(e, scope.scopes@, t),
        rejected(e, scope.scopes@) ==> r is Err,
        plain_type(e, scope.scopes@) is Some ==> r is Ok,
        array_errors(elements@, scope.scopes@, r),
    decreases fuel, 0nat, elements,
{
    let n = elements.len();
    if n == 0 {
        return Err(AnalysisError::from_str("array literal must have at least one element"));
    }
    let ghost orig = elements;
    let mut rest = elements;
    let mut typed: Vec<TypedExpr> = Vec::new();
    let mut i: usize = 0;
    while i < n
        invariant
            n == orig.len(),
            0 <= i <= n,
            rest@ == orig@.subrange(i as int, n as int),
            typed.len() == i,
            forall|j: int| 0 <= j < i ==> typed_as(orig@[j], scope.scopes@, #[trigger] typed@[j]),
            forall|j: int| 0 <= j < i ==> !rejected(#[trigger] orig@[j], scope.scopes@),
            cache.wf(),
            (forall|j: int| 0 <= j < orig.len() ==> plain_type(#[trigger] orig@[j], scope.scopes@) is Some) ==> *cache == *old(cache),
        decreases n - i,
    {
        let el = rest.remove(0);
        proof {
            assert(el == orig@[i as int]);
            assert(decreases_to!(orig => orig@));
            assert(decreases_to!(orig@ => orig@[i as int]));
            assert(rest@ =~= orig@.subrange(i + 1, n as int));
        }
        let t = expr_to_typed(el, scope, cache, fuel)?;
        typed.push(t);
        i = i + 1;
    }
    let elem_ty = typed[0].inferred_type.copy();
    let ghost all = typed@;
    let ghost plain = plain_type(e, scope.scopes@) is Some;
    proof {
        if plain {
            assert(orig@ == elements@);
            lemma_plain_type(orig@[0], scope.scopes@, all[0]);
            assert forall|j: int| 1 <= j < n implies !(assign_coercion(scope.scopes@, (#[trigger] all[j]).expression,
                all[j].inferred_type@, all[0].inferred_type@) is Reject) by {
                assert(plain_type(orig@[j], scope.scopes@) is Some);
                lemma_plain_type(orig@[j], scope.scopes@, all[j]);
                lemma_plain_fits(orig@[j], scope.scopes@, all[j], all[0].inferred_type@);
            }
        }
    }
    let mut fitted_elems: Vec<TypedExpr> = Vec::new();
    let mut k: usize = 0;
    let mut pending = typed;
    while k < n
        invariant
            n == orig.len(),
            all.len() == n,
            pending@ == all.subrange(k as int, n as int),
            0 <= k <= n,
            fitted_elems.len() == k,
            elem_ty@ == all[0].inferred_type@,
            forall|j: int| 0 <= j < n ==> typed_as(orig@[j], scope.scopes@, #[trigger] all[j]),
            k > 0 ==> fitted_elems@[0] == all[0],
            forall|j: int| 1 <= j < k ==> assign_fitted(orig@[j], scope.scopes@, elem_ty@, #[trigger] fitted_elems@[j]),
            plain ==> forall|j: int| 1 <= j < n ==> !(assign_coercion(scope.scopes@, (#[trigger] all[j]).expression,
                all[j].inferred_type@, all[0].inferred_type@) is Reject),
            forall|q: int| 1 <= q < k ==> !(#[trigger] first_misfit(orig@, scope.scopes@, q)),
        decreases n - k,
    {
        let e = pending.remove(0);
        proof {
            assert(e == all[k as int]);
            assert(pending@ =~= all.subrange(k + 1, n as int));
            if k >= 1 && forall|j: int| 0 <= j < orig.len() ==> (#[trigger] plain_type(orig@[j], scope.scopes@)) is Some {
                lemma_plain_type(orig@[0], scope.scopes@, all[0]);
                lemma_plain_type(orig@[k as int], scope.scopes@, all[k as int]);
                lemma_plain_fits(orig@[k as int], scope.scopes@, all[k as int], all[0].inferred_type@);
            }
        }
        if k == 0 {
            fitted_elems.push(e);
        } else {
            let found = describe_type(&e.inferred_type);
            let ghost e0k = e;
            match coerce_or_alias(e, &elem_ty, scope) {
                Ok(c) => {
                    proof {
                        assert(coerced(e0k, elem_ty@, assign_coercion(scope.scopes@, e0k.expression, e0k.inferred_type@, elem_ty@), Ok::<TypedExpr, AnalysisError>(c)));
                        assert(typed_as(orig@[k as int], scope.scopes@, e0k));
                        assert(assign_fitted(orig@[k as int], scope.scopes@, elem_ty@, c));
                    }
                    fitted_elems.push(c);
                },
                Err(_) => {
                    proof {
                        assert forall|q: int| #[trigger] first_misfit(orig@, scope.scopes@, q) implies q == k by {
                            if q > k {
                                assert(plain_fits(scope.scopes@, orig@[k as int], plain_type(orig@[k as int], scope.scopes@)->0,
                                    plain_type(orig@[0], scope.scopes@)->0));
                            }
                        }
                    }
                    let mut m = str_to_string("array literal: element ");
                    push_str(&mut m, usize_to_string(k).as_str());
                    push_str(&mut m, " has incompatible type ");
                    push_str(&mut m, found.as_str());
                    push_str(&mut m, ", expected ");
                    push_str(&mut m, describe_type(&elem_ty).as_str());
                    return Err(AnalysisError::from_message(m));
                },
            }
        }
        k = k + 1;
    }
    let size = n as u64;
    Ok(TypedExpr {
        inferred_type: Ty::Array { element_type: Box::new(elem_ty), size },
        expression: TypedExprKind::ArrayLiteral { elements: fitted_elems },
    })
}

/// Every call argument of `t` outside its compile-time positions is plain.
pub open spec fn plain_value_arguments(t: GenericFunctionTemplate, args: Seq<Expression>, scopes: Seq<Scope>) -> bool {
    forall|i: int| 0 <= i < args.len() && !t.comptime_params@.contains(i as usize) ==> (#[trigger] plain_type(args[i], scopes)) is Some
}

/// A call of a generic function: the instance for these arguments, called
/// with the arguments that are not compile-time parameters.
fn generic_call_to_typed(
    template: GenericFunctionTemplate,
    args: Vec<Expression>,
    scope: &SymbolTable,
    cache: &mut GenericCache,
    fuel: usize,
) -> (r: Result<TypedExpr, AnalysisError>)
    requires
        old(cache).wf(),
        scope.scopes.len() > 0,
    ensures
        final(cache).wf(),
        r matches Ok(t) ==> (t.expression matches TypedExprKind::Call { callee: c, .. } && c@ == instance_name(template, args@)),
        fuel == 0 || !type_arguments_given(template, args@, scope.scopes@) ==> r is Err,
        fuel > 0 && type_arguments_given(template, args@, scope.scopes@) && (old(cache).has(instance_name(template, args@))
            || (fuel > 1 && match template.ast_decl.body {
            Some(b) => b.statements.len() == 0,
            None => true,
        })) && plain_value_arguments(template, args@, scope.scopes@) ==> r is Ok,
    decreases fuel, 0nat, args,
{
    let ghost easy = fuel > 0 && type_arguments_given(template, args@, scope.scopes@)
        && (cache.has(instance_name(template, args@)) || (fuel > 1 && (template.ast_decl.body is None
            || template.ast_decl.body->Some_0.statements.len() == 0))) && plain_value_arguments(template, args@, scope.scopes@);
    if fuel == 0 {
        return Err(too_deep());
    }
    let (mangled, return_type) = instantiate_generic(&template, &args, scope, cache, fuel - 1)?;
    let n = args.len();
    let ghost orig = args;
    let mut rest = args;
    let mut hargs: Vec<TypedExpr> = Vec::new();
    let mut i: usize = 0;
    while i < n
        invariant
            n == orig.len(),
            0 <= i <= n,
            rest@ == orig@.subrange(i as int, n as int),
            cache.wf(),
            easy ==> plain_value_arguments(template, orig@, scope.scopes@),
        decreases n - i,
    {
        let arg = rest.remove(0);
        proof {
            assert(arg == orig@[i as int]);
            assert(decreases_to!(orig => orig@));
            assert(decreases_to!(orig@ => orig@[i as int]));
            assert(rest@ =~= orig@.subrange(i + 1, n as int));
        }
        if !contains_index(&template.comptime_params, i) {
            hargs.push(expr_to_typed(arg, scope, cache, fuel)?);
        }
        i = i + 1;
    }
    Ok(TypedExpr {
        inferred_type: return_type,
        expression: TypedExprKind::Call { callee: Identifier { value: mangled }, args: hargs },
    })
}


/// Whether operands of the types `l` and `r` (the right one of the form
/// `rk`, the left one of the form `lk`) combine under `operator`: logical
/// operators need two bools, arithmetic a pointer or a numeric left operand
/// that the right one fits, comparisons a numeric left operand that the right
/// one fits, equality a right operand that fits the left one (or a `null`
/// left operand, which takes the right one's type).
pub open spec fn binary_fits(operator: Operator, lk: TypedExprKind, l: TyV, rk: TypedExprKind, r: TyV) -> bool {
    if logical_op(operator) {
        l == TyV::Builtin(BuiltinType::Boolean) && r == TyV::Builtin(BuiltinType::Boolean)
    } else if arithmetic_op(operator) {
        l is Pointer || (numeric_type(l) && !(coercion(rk, r, l) is Reject))
    } else if comparison_op(operator) {
        numeric_type(l) && !(coercion(rk, r, l) is Reject)
    } else if l == TyV::Builtin(BuiltinType::Never) && r != TyV::Builtin(BuiltinType::Never) {
        !(coercion(lk, l, r) is Reject)
    } else {
        !(coercion(rk, r, l) is Reject)
    }
}

/// The typed form of the binary expression `e` from its typed operands:
/// logical operators need bool operands, arithmetic keeps the left type (a
/// pointer takes any right operand), comparisons need numeric operands, and
/// the right operand (the left one, for a `null` left) is fitted to the
/// other's type.
fn binary_to_typed(
    l: TypedExpr,
    operator: Operator,
    r: TypedExpr,
    Ghost(e): Ghost<Expression>,
    Ghost(scopes): Ghost<Seq<Scope>>,
) -> (res: Result<TypedExpr, AnalysisError>)
    requires
        e.kind matches ExpressionKind::Binary { left, operator: op, right } && op == operator
            && typed_as(*left, scopes, l) && typed_as(*right, scopes, r),
        arithmetic_op(operator) || comparison_op(operator) || equality_op(operator) || logical_op(operator),
    ensures
        res matches Ok(t) ==> typed_as(e, scopes, t),
        res is Ok <==> binary_fits(operator, l.expression, l.inferred_type@, r.expression, r.inferred_type@),
        res matches Err(er) ==> er.message@ == binary_error_text(operator, l.expression, l.inferred_type@, r.expression, r.inferred_type@),
{
    let ghost le = match e.kind { ExpressionKind::Binary { left, .. } => *left, _ => e };
    let ghost re = match e.kind { ExpressionKind::Binary { right, .. } => *right, _ => e };
    let ghost l0 = l;
    let ghost r0 = r;
    let is_arith = match operator {
        Operator::Plus | Operator::Minus | Operator::Star | Operator::Slash | Operator::Percent
        | Operator::RightShift | Operator::LeftShift | Operator::Ampersand | Operator::Pipe
        | Operator::Caret => true,
        _ => false,
    };
    let is_relational = match operator {
        Operator::GreaterThan | Operator::GreaterEqual | Operator::LesserThan | Operator::LesserEqual => true,
        _ => false,
    };
    let is_logic = match operator {
        Operator::LogicalAnd | Operator::LogicalOr => true,
        _ => false,
    };
    if is_logic {
        if !is_boolean_type(&l.inferred_type) || !is_boolean_type(&r.inferred_type) {
            let mut m = str_to_string("operator ");
            push_str(&mut m, operator.name());
            push_str(&mut m, " requires bool operands, got ");
            push_str(&mut m, describe_type(&l.inferred_type).as_str());
            push_str(&mut m, " and ");
            push_str(&mut m, describe_type(&r.inferred_type).as_str());
            return Err(AnalysisError::from_message(m));
        }
        let op = match LogicalOp::from_syntax(operator) {
            Some(op) => op,
            None => {
                return Err(AnalysisError::from_str("unsupported binary operator"));
            },
        };
        return Ok(TypedExpr {
            inferred_type: Ty::Builtin(BuiltinType::Boolean),
            expression: TypedExprKind::ShortCircuit { left: Box::new(l), operator: op, right: Box::new(r) },
        });
    }
    let operator_b = match BinOp::from_syntax(operator) {
        Some(op) => op,
        None => {
            return Err(AnalysisError::from_str("unsupported binary operator"));
        },
    };
    if is_arith {
        let is_pointer = match &l.inferred_type {
            Ty::Pointer(_) => true,
            _ => false,
        };
        if is_pointer {
            let t = l.inferred_type.copy();
            return Ok(TypedExpr {
                inferred_type: t,
                expression: TypedExprKind::Binary { left: Box::new(l), operator: operator_b, right: Box::new(r) },
            });
        }
        if !is_numeric_type(&l.inferred_type) {
            let mut m = str_to_string("operator ");
            push_str(&mut m, operator.name());
            push_str(&mut m, " requires numeric operands, got ");
            push_str(&mut m, describe_type(&l.inferred_type).as_str());
            return Err(AnalysisError::from_message(m));
        }
        let rc = coerce_expr_to_type(r, &l.inferred_type);
        let r = rc?;
        proof {
            assert(coerced(r0, l0.inferred_type@, coercion(r0.expression, r0.inferred_type@, l0.inferred_type@), Ok::<TypedExpr, AnalysisError>(r)));
            assert(fitted(re, scopes, l.inferred_type@, r));
        }
        let t = l.inferred_type.copy();
        return Ok(TypedExpr {
            inferred_type: t,
            expression: TypedExprKind::Binary { left: Box::new(l), operator: operator_b, right: Box::new(r) },
        });
    }
    if is_relational {
        if !is_numeric_type(&l.inferred_type) {
            let mut m = str_to_string("operator ");
            push_str(&mut m, operator.name());
            push_str(&mut m, " requires numeric operands, got ");
            push_str(&mut m, describe_type(&l.inferred_type).as_str());
            return Err(AnalysisError::from_message(m));
        }
        let rc = coerce_expr_to_type(r, &l.inferred_type);
        let r = rc?;
        proof {
            assert(coerced(r0, l0.inferred_type@, coercion(r0.expression, r0.inferred_type@, l0.inferred_type@), Ok::<TypedExpr, AnalysisError>(r)));
            assert(fitted(re, scopes, l.inferred_type@, r));
        }
        return Ok(TypedExpr {
            inferred_type: Ty::Builtin(BuiltinType::Boolean),
            expression: TypedExprKind::Binary { left: Box::new(l), operator: operator_b, right: Box::new(r) },
        });
    }
    let never = Ty::Builtin(BuiltinType::Never);
    let l_never = crate::frontend::typed_ast::ty_eq(&l.inferred_type, &never);
    let r_never = crate::frontend::typed_ast::ty_eq(&r.inferred_type, &never);
    if l_never && !r_never {
        let target = r.inferred_type.copy();
        let lc = coerce_expr_to_type(l, &target);
        let l = lc?;
        proof {
            assert(coerced(l0, r0.inferred_type@, coercion(l0.expression, l0.inferred_type@, r0.inferred_type@), Ok::<TypedExpr, AnalysisError>(l)));
            assert(null_fitted(le, scopes, r.inferred_type@, l));
        }
        Ok(TypedExpr {
            inferred_type: Ty::Builtin(BuiltinType::Boolean),
            expression: TypedExprKind::Binary { left: Box::new(l), operator: operator_b, right: Box::new(r) },
        })
    } else {
        let rc = coerce_expr_to_type(r, &l.inferred_type);
        let r = rc?;
        proof {
            assert(coerced(r0, l0.inferred_type@, coercion(r0.expression, r0.inferred_type@, l0.inferred_type@), Ok::<TypedExpr, AnalysisError>(r)));
            assert(fitted(re, scopes, l.inferred_type@, r));
        }
        Ok(TypedExpr {
            inferred_type: Ty::Builtin(BuiltinType::Boolean),
            expression: TypedExprKind::Binary { left: Box::new(l), operator: operator_b, right: Box::new(r) },
        })
    }
}

/// The typed form of the unary expression `e` from its typed operand:
/// `-x` is `0 - x`, `~x` is `x ^ all-ones`, and `!x` is `x == false` for a
/// bool (or `null`) operand.
fn unary_to_typed(
    inner: TypedExpr,
    operator: Operator,
    Ghost(e): Ghost<Expression>,
    Ghost(scopes): Ghost<Seq<Scope>>,
) -> (res: Result<TypedExpr, AnalysisError>)
    requires
        e.kind matches ExpressionKind::Unary { operator: op, expression } && op == operator
            && typed_as(*expression, scopes, inner),
        operator == Operator::Minus || operator == Operator::Tilde || operator == Operator::LogicalNot,
    ensures
        res matches Ok(t) ==> typed_as(e, scopes, t),
        res is Ok <==> (operator != Operator::LogicalNot || inner.inferred_type@ == TyV::Builtin(BuiltinType::Boolean)
            || inner.inferred_type@ == TyV::Builtin(BuiltinType::Never)),
{
    let ghost ie = match e.kind { ExpressionKind::Unary { expression, .. } => *expression, _ => e };
    let ghost i0 = inner;
    if operator == Operator::Minus {
        let zero_kind = if is_float_type(&inner.inferred_type) {
            let value = str_to_string("0.0");
            proof {
                reveal_strlit("0.0");
                assert(value@ =~= seq!['0', '.', '0']);
            }
            TypedExprKind::LiteralFloat { value }
        } else {
            TypedExprKind::LiteralInt { value: 0 }
        };
        let zero = TypedExpr { inferred_type: inner.inferred_type.copy(), expression: zero_kind };
        let t = inner.inferred_type.copy();
        Ok(TypedExpr {
            inferred_type: t,
            expression: TypedExprKind::Binary { left: Box::new(zero), operator: BinOp::Sub, right: Box::new(inner) },
        })
    } else if operator == Operator::Tilde {
        let minus_one = TypedExpr {
            inferred_type: inner.inferred_type.copy(),
            expression: TypedExprKind::LiteralInt { value: u64::MAX },
        };
        let t = inner.inferred_type.copy();
        Ok(TypedExpr {
            inferred_type: t,
            expression: TypedExprKind::Binary { left: Box::new(inner), operator: BinOp::Xor, right: Box::new(minus_one) },
        })
    } else {
        // `!x` is `x == false`.
        let falsity = TypedExpr {
            inferred_type: Ty::Builtin(BuiltinType::Boolean),
            expression: TypedExprKind::LiteralBool(false),
        };
        let never = Ty::Builtin(BuiltinType::Never);
        if crate::frontend::typed_ast::ty_eq(&inner.inferred_type, &never) {
            let lc = coerce_expr_to_type(inner, &falsity.inferred_type);
            let l = lc?;
            proof {
                let bool_ty = TyV::Builtin(BuiltinType::Boolean);
                assert(coerced(i0, bool_ty, coercion(i0.expression, i0.inferred_type@, bool_ty), Ok::<TypedExpr, AnalysisError>(l)));
                assert(fitted(ie, scopes, bool_ty, l));
            }
            Ok(TypedExpr {
                inferred_type: Ty::Builtin(BuiltinType::Boolean),
                expression: TypedExprKind::Binary { left: Box::new(l), operator: BinOp::Eq, right: Box::new(falsity) },
            })
        } else {
            let target = inner.inferred_type.copy();
            let r = coerce_expr_to_type(falsity, &target)?;
            let is_bool = is_boolean_type(&inner.inferred_type);
            if !is_bool {
                return Err(AnalysisError::from_str("`!` requires a bool operand"));
            }
            Ok(TypedExpr {
                inferred_type: Ty::Builtin(BuiltinType::Boolean),
                expression: TypedExprKind::Binary { left: Box::new(inner), operator: BinOp::Eq, right: Box::new(r) },
            })
        }
    }
}

/// Type the arguments of a call against the parameter types: the count must
/// match (or reach it, for a variadic callee) and each argument is coerced
/// to its parameter's type; extra variadic arguments are kept as typed.
#[verifier::spinoff_prover]
pub fn check_call_args(
    func_name: &str,
    params: &Vec<(Identifier, Ty)>,
    is_variadic: bool,
    args: Vec<Expression>,
    scope: &SymbolTable,
    cache: &mut GenericCache,
    fuel: usize,
) -> (r: Result<Vec<TypedExpr>, AnalysisError>)
    requires
        old(cache).wf(),
        scope.scopes.len() > 0,
    ensures
        (if is_variadic { args.len() >= params.len() } else { args.len() == params.len() }) && (forall|i: int|
            0 <= i < params.len() ==> plain_type(#[trigger] args@[i], scope.scopes@) == Some(params@[i].1@)) && (forall|i: int|
            params.len() <= i < args.len() ==> plain_type(#[trigger] args@[i], scope.scopes@) is Some) ==> *final(cache) == *old(cache),
        final(cache).wf(),
        is_variadic && args.len() < params.len() ==> r is Err,
        !is_variadic && args.len() != params.len() ==> r is Err,
        r matches Ok(v) ==> v.len() == args.len() && (forall|i: int| 0 <= i < params.len() ==> #[trigger] v@[i].inferred_type@
            == params@[i].1@ && fitted(args@[i], scope.scopes@, params@[i].1@, v@[i]))
            && forall|i: int| params.len() <= i < args.len() ==> typed_as(args@[i], scope.scopes@, #[trigger] v@[i]),
        (exists|k: int| 0 <= k < args.len() && rejected(#[trigger] args@[k], scope.scopes@)) ==> r is Err,
        (if is_variadic { args.len() >= params.len() } else { args.len() == params.len() }) && (forall|i: int|
            0 <= i < params.len() ==> plain_type(#[trigger] args@[i], scope.scopes@) == Some(params@[i].1@)) && (forall|i: int|
            params.len() <= i < args.len() ==> plain_type(#[trigger] args@[i], scope.scopes@) is Some) ==> r is Ok,
    decreases fuel, 0nat, args,
{
    if is_variadic {
        if args.len() < params.len() {
            let mut m = str_to_string(func_name);
            push_str(&mut m, " expects at least ");
            push_str(&mut m, usize_to_string(params.len()).as_str());
            push_str(&mut m, " argument(s), but ");
            push_str(&mut m, usize_to_string(args.len()).as_str());
            push_str(&mut m, " were given");
            return Err(AnalysisError::from_message(m));
        }
    } else if args.len() != params.len() {
        let mut m = str_to_string(func_name);
        push_str(&mut m, " expects ");
        push_str(&mut m, usize_to_string(params.len()).as_str());
        push_str(&mut m, " argument(s), but ");
        push_str(&mut m, usize_to_string(args.len()).as_str());
        push_str(&mut m, " were given");
        return Err(AnalysisError::from_message(m));
    }
    let n = args.len();
    let ghost orig = args;
    let mut rest = args;
    let mut hargs: Vec<TypedExpr> = Vec::new();
    let mut i: usize = 0;
    while i < n
        invariant
            n == orig.len(),
            params.len() <= n,
            0 <= i <= n,
            rest@ == orig@.subrange(i as int, n as int),
            hargs.len() == i,
            forall|j: int| 0 <= j < i && j < params.len() ==> #[trigger] hargs@[j].inferred_type@ == params@[j].1@
                && fitted(orig@[j], scope.scopes@, params@[j].1@, hargs@[j]),
            forall|j: int| params.len() <= j < i ==> typed_as(orig@[j], scope.scopes@, #[trigger] hargs@[j]),
            forall|j: int| 0 <= j < i ==> !rejected(#[trigger] orig@[j], scope.scopes@),
            cache.wf(),
            (forall|j: int| 0 <= j < orig.len() ==> plain_type(#[trigger] orig@[j], scope.scopes@) is Some) ==> *cache == *old(cache),
        decreases n - i,
    {
        let arg = rest.remove(0);
        proof {
            assert(arg == orig@[i as int]);
            assert(decreases_to!(orig => orig@));
            assert(decreases_to!(orig@ => orig@[i as int]));
            assert(rest@ =~= orig@.subrange(i + 1, n as int));
        }
        let harg = expr_to_typed(arg, scope, cache, fuel)?;
        let ghost h0 = harg;
        if i < params.len() {
            let found = describe_type(&harg.inferred_type);
            match coerce_expr_to_type(harg, &params[i].1) {
                Ok(h) => {
                    proof {
                        let pt = params@[i as int].1@;
                        assert(coerced(h0, pt, coercion(h0.expression, h0.inferred_type@, pt), Ok::<TypedExpr, AnalysisError>(h)));
                        assert(fitted(orig@[i as int], scope.scopes@, pt, h));
                    }
                    hargs.push(h);
                },
                Err(_) => {
                    let mut m = str_to_string(func_name);
                    push_str(&mut m, ": argument '");
                    push_str(&mut m, params[i].0.value.as_str());
                    push_str(&mut m, "' expects type ");
                    push_str(&mut m, describe_type(&params[i].1).as_str());
                    push_str(&mut m, ", but found ");
                    push_str(&mut m, found.as_str());
                    return Err(AnalysisError::from_message(m));
                },
            }
        } else {
            hargs.push(harg);
        }
        i = i + 1;
    }
    Ok(hargs)
}


fn contains_index(v: &Vec<usize>, x: usize) -> (r: bool)
    ensures
        r == v@.contains(x),
{
    let mut i: usize = 0;
    while i < v.len()
        invariant
            0 <= i <= v.len(),
            forall|j: int| 0 <= j < i ==> v@[j] != x,
        decreases v.len() - i,
    {
        if v[i] == x {
            return true;
        }
        i = i + 1;
    }
    false
}

/// What a call's callee names.
pub enum CallTarget {
    /// A generic function, instantiated per call.
    Generic(GenericFunctionTemplate),
    /// A plain function, under the name the call is emitted with, the name
    /// used in messages, and its signature.
    Plain { callee: Identifier, display: String, params: Vec<(Identifier, Ty)>, return_type: Ty, is_variadic: bool },
}

/// The function that the module registered under `module` exports under
/// `member`, if it is one.
pub open spec fn exported_function(modules: Seq<(String, TypedModule)>, module: Seq<char>, member: Seq<char>) -> Option<TypedFunction> {
    match module_index(modules, module) {
        Some(i) => match find_last(modules[i].1.exports@, member) {
            Some(k) => match modules[i].1.exports@[k].1 {
                TypedSymbol::Function(f) => Some(f),
                _ => None,
            },
            None => None,
        },
        None => None,
    }
}

/// Resolve the callee of a call: an identifier bound to a function or a
/// generic template, or `module::member` naming an exported function
/// (emitted under `module__member` unless it is extern).
pub fn call_target(callee: &Expression, scope: &SymbolTable) -> (r: Result<CallTarget, AnalysisError>)
    ensures
        (callee.kind matches ExpressionKind::Identifier(name) && lookup_in(scope.scopes@, name@) is None) ==> r is Err,
        (callee.kind matches ExpressionKind::Identifier(name) && lookup_in(scope.scopes@, name@) matches Some(s)
            && (s is Binding || s is Type)) ==> r is Err,
        !(callee.kind is Identifier) && !(callee.kind is QualifiedAccess) ==> r is Err,
        callee.kind matches ExpressionKind::Identifier(name) ==> match lookup_in(scope.scopes@, name@) {
            Some(TypedSymbol::GenericFunction(t)) => r matches Ok(CallTarget::Generic(g)) && g.name == t.name
                && g.comptime_params@ == t.comptime_params@,
            Some(TypedSymbol::Function(f)) => r matches Ok(
                CallTarget::Plain { callee: c, params, return_type, is_variadic, .. },
            ) && c@ == name@ && return_type@ == f.return_type@ && is_variadic == f.is_variadic && params.len()
                == f.params.len() && forall|i: int| 0 <= i < f.params.len() ==> #[trigger] params@[i].1@ == f.params@[i].1@,
            _ => r is Err,
        },
        callee.kind matches ExpressionKind::QualifiedAccess { module, member } ==> (exported_function(
            scope.modules@,
            module@,
            member@,
        ) matches Some(f) ==> (r matches Ok(CallTarget::Plain { callee: c, return_type, is_variadic, .. })
            && return_type@ == f.return_type@ && is_variadic == f.is_variadic && (f.is_extern ==> c@ == member@)
            && (!f.is_extern ==> c@ == module@ + "__"@ + member@))),
{
    match &callee.kind {
        ExpressionKind::Identifier(name) => {
            match scope.lookup(name) {
                Some(TypedSymbol::GenericFunction(t)) => Ok(CallTarget::Generic(t.clone())),
                Some(TypedSymbol::Function(f)) => Ok(CallTarget::Plain {
                    callee: name.copy(),
                    display: name.value.clone(),
                    params: f.clone().params,
                    return_type: f.return_type.copy(),
                    is_variadic: f.is_variadic,
                }),
                Some(_) => Err(AnalysisError::from_message(message3("symbol ", name.value.as_str(), " is not a function"))),
                None => Err(AnalysisError::from_message(message3(
                    "unknown function '",
                    name.value.as_str(),
                    "' (did you forget an extern declaration?)",
                ))),
            }
        },
        ExpressionKind::QualifiedAccess { module, member } => {
            let typed_module = match scope.lookup_module(module.value.as_str()) {
                Some(m) => m,
                None => {
                    return Err(AnalysisError::from_message(message3("unknown module '", module.value.as_str(), "'")));
                },
            };
            let f = match crate::frontend::typed_ast::find_last_index(&typed_module.exports, member) {
                Some(i) => match &typed_module.exports[i].1 {
                    TypedSymbol::Function(f) => f,
                    _ => {
                        return Err(AnalysisError::from_message(message3("'", member.value.as_str(), "' in module is not a function")));
                    },
                },
                None => {
                    return Err(AnalysisError::from_message(message3("'", member.value.as_str(), "' not found in module")));
                },
            };
            let callee_name = if f.is_extern {
                member.copy()
            } else {
                let mut v = module.value.clone();
                push_str(&mut v, "__");
                push_str(&mut v, member.value.as_str());
                proof { reveal_strlit("__"); }
                Identifier { value: v }
            };
            let mut display = module.value.clone();
            push_str(&mut display, "::");
            push_str(&mut display, member.value.as_str());
            Ok(CallTarget::Plain {
                callee: callee_name,
                display,
                params: f.clone().params,
                return_type: f.return_type.copy(),
                is_variadic: f.is_variadic,
            })
        },
        _ => Err(AnalysisError::from_str("call target must be an identifier or qualified access")),
    }
}

/// The index of the first entry named `name`.
fn field_position(fields: &Vec<(String, Ty)>, name: &str) -> (r: Option<usize>)
    ensures
        r matches Some(i) ==> i < fields.len() && fields@[i as int].0@ == name@ && forall|j: int| 0 <= j < i ==> fields@[j].0@
            != name@,
        r is None ==> forall|i: int| 0 <= i < fields.len() ==> fields@[i].0@ != name@,
{
    let mut i: usize = 0;
    while i < fields.len()
        invariant
            0 <= i <= fields.len(),
            forall|j: int| 0 <= j < i ==> fields@[j].0@ != name@,
        decreases fields.len() - i,
    {
        if str_eq(fields[i].0.as_str(), name) {
            return Some(i);
        }
        i = i + 1;
    }
    None
}

/// The enum type `object` names, when it is a name bound to a type that
/// resolves to an enum.
pub open spec fn named_enum(object: Expression, scopes: Seq<Scope>) -> Option<(Seq<char>, Seq<VariantV>)> {
    match object.kind {
        ExpressionKind::Identifier(n) => match lookup_in(scopes, n@) {
            Some(TypedSymbol::Type(ty)) => match resolved(scopes, ty@) {
                TyV::Enum { variants } => Some((n@, variants)),
                _ => None,
            },
            _ => None,
        },
        _ => None,
    }
}

/// `Type.Variant` where `Type` names an enum: the enum literal, or an error
/// when the enum has no such variant. `None` when `object` names no enum.
pub fn enum_literal(object: &Expression, field: &Identifier, scope: &SymbolTable) -> (r: Option<Result<TypedExpr, AnalysisError>>)
    ensures
        r matches Some(Ok(t)) ==> t.expression is EnumLiteral,
        match named_enum(*object, scope.scopes@) {
            None => r is None,
            Some((name, variants)) => if exists|i: int| 0 <= i < variants.len() && (#[trigger] variants[i]).name == field@ {
                r matches Some(Ok(t)) && t.inferred_type@ == TyV::Identifier(name) && (t.expression matches TypedExprKind::EnumLiteral {
                    enum_name,
                    variant,
                    discriminant,
                } && enum_name@ == name && variant@ == field@ && exists|i: int| 0 <= i < variants.len()
                    && (#[trigger] variants[i]).name == field@ && variants[i].discriminant == discriminant
                    && forall|j: int| 0 <= j < i ==> (#[trigger] variants[j]).name != field@)
            } else {
                r matches Some(Err(_))
            },
        },
{
    let (named, variants) = match &object.kind {
        ExpressionKind::Identifier(named) => match scope.lookup(named) {
            Some(TypedSymbol::Type(ty)) => {
                let resolved = resolve_type_alias(ty, scope);
                match resolved {
                    Ty::Enum { variants } => (named.copy(), variants),
                    _ => {
                        return None;
                    },
                }
            },
            _ => {
                return None;
            },
        },
        _ => {
            return None;
        },
    };
    proof {
        lemma_variants_view(variants@);
    }
    let ghost vs = variants_view(variants@);
    let mut i: usize = 0;
    while i < variants.len()
        invariant
            0 <= i <= variants.len(),
            vs == variants_view(variants@),
            vs.len() == variants.len(),
            forall|k: int| 0 <= k < variants.len() ==> #[trigger] vs[k] == variant_view(&variants@[k]),
            forall|j: int| 0 <= j < i ==> (#[trigger] vs[j]).name != field@,
        decreases variants.len() - i,
    {
        if str_eq(variants[i].name.as_str(), field.value.as_str()) {
            proof {
                assert(vs[i as int].name == field@);
            }
            return Some(Ok(TypedExpr {
                inferred_type: Ty::Identifier(named.copy()),
                expression: TypedExprKind::EnumLiteral {
                    enum_name: named.value.clone(),
                    variant: variants[i].name.clone(),
                    discriminant: variants[i].discriminant,
                },
            }));
        }
        proof {
            assert(vs[i as int].name == variants@[i as int].name@);
        }
        i = i + 1;
    }
    let mut m = str_to_string("enum ");
    push_str(&mut m, named.value.as_str());
    push_str(&mut m, " has no variant ");
    push_str(&mut m, field.value.as_str());
    Some(Err(AnalysisError::from_message(m)))
}

/// Read the field `field` of the struct-typed `obj`.
pub fn field_read(obj: TypedExpr, field: Identifier, scope: &SymbolTable) -> (r: Result<TypedExpr, AnalysisError>)
    ensures
        r matches Ok(t) ==> (t.expression matches TypedExprKind::FieldAccess { object, field: f, field_index }
            && *object == obj && f@ == field@),
        match struct_fields_of(scope.scopes@, obj.inferred_type@, alias_fuel(scope.scopes@)) {
            None => r is Err,
            Some(fs) => if exists|i: int| 0 <= i < fs.len() && (#[trigger] fs[i]).0 == field@ {
                r matches Ok(t) && (t.expression matches TypedExprKind::FieldAccess { field_index, .. }
                    && field_index < fs.len() && fs[field_index as int].0 == field@
                    && (forall|j: int| 0 <= j < field_index ==> (#[trigger] fs[j]).0 != field@)
                    && t.inferred_type@ == fs[field_index as int].1)
            } else {
                r is Err
            },
        },
{
    let fields = match resolve_struct_fields(&obj.inferred_type, scope) {
        Some(fs) => fs,
        None => {
            return Err(AnalysisError::from_message(message2("field access on non-struct type ", describe_type(&obj.inferred_type).as_str())));
        },
    };
    proof {
        lemma_fields_view(fields@);
        let fs = fields_view(fields@);
        assert forall|j: int| 0 <= j < fs.len() implies (#[trigger] fs[j]).0 == fields@[j].0@ && fs[j].1 == fields@[j].1@ by {}
    }
    match field_position(&fields, field.value.as_str()) {
        Some(i) => {
            let t = fields[i].1.copy();
            proof {
                let fs = fields_view(fields@);
                assert(fs[i as int].0 == field@);
                assert forall|j: int| 0 <= j < i implies (#[trigger] fs[j]).0 != field@ by {
                    assert(fields@[j].0@ != field.value@);
                }
            }
            Ok(TypedExpr {
                inferred_type: t,
                expression: TypedExprKind::FieldAccess { object: Box::new(obj), field: field.value, field_index: i },
            })
        },
        None => {
            proof {
                let fs = fields_view(fields@);
                assert forall|j: int| 0 <= j < fs.len() implies (#[trigger] fs[j]).0 != field@ by {
                    assert(fields@[j].0@ != field.value@);
                }
            }
            let mut m = str_to_string("field ");
            push_str(&mut m, field.value.as_str());
            push_str(&mut m, " not found in struct type ");
            push_str(&mut m, describe_type(&obj.inferred_type).as_str());
            Err(AnalysisError::from_message(m))
        },
    }
}

/// `Name { f: e, ... }`: every declared field exactly once, re-emitted in
/// declaration order and coerced to the field's type.
#[verifier::rlimit(60)]
fn struct_construct_to_typed(
    struct_name: Identifier,
    fields: Vec<(Identifier, Expression)>,
    scope: &SymbolTable,
    cache: &mut GenericCache,
    fuel: usize,
) -> (r: Result<TypedExpr, AnalysisError>)
    requires
        old(cache).wf(),
        scope.scopes.len() > 0,
    ensures
        final(cache).wf(),
        r matches Ok(t) ==> struct_built(struct_name@, scope.scopes@, t) && fields_fitted(fields@, scope.scopes@, t),
        !(lookup_in(scope.scopes@, struct_name@) matches Some(TypedSymbol::Type(_))) ==> r is Err,
        plain_construction(struct_name@, fields@, scope.scopes@) ==> r is Ok,
    decreases fuel, 0nat, fields,
{
    let ghost plain = plain_construction(struct_name@, fields@, scope.scopes@);
    let struct_ty = match scope.lookup(&struct_name) {
        Some(TypedSymbol::Type(ty)) => ty.copy(),
        Some(_) => {
            return Err(AnalysisError::from_message(message3("expr_to_typed: ", struct_name.value.as_str(), " is not a type")));
        },
        None => {
            return Err(AnalysisError::from_message(message3("expr_to_typed: type ", struct_name.value.as_str(), " not found in scope")));
        },
    };
    let declared = match resolve_struct_fields(&struct_ty, scope) {
        Some(fs) => fs,
        None => {
            return Err(AnalysisError::from_message(message3("", struct_name.value.as_str(), " is not a struct type")));
        },
    };
    let n = fields.len();
    let ghost orig = fields;
    let ghost fs = fields_view(declared@);
    proof {
        lemma_fields_view(declared@);
        if plain {
            assert(struct_ty@ == lookup_in(scope.scopes@, struct_name@)->Some_0->Type_0@);
        }
    }
    let mut rest = fields;
    let mut provided: Vec<(String, TypedExpr)> = Vec::new();
    let mut i: usize = 0;
    while i < n
        invariant
            n == orig.len(),
            0 <= i <= n,
            rest@ == orig@.subrange(i as int, n as int),
            fs == fields_view(declared@),
            fs.len() == declared.len(),
            forall|k: int| 0 <= k < declared.len() ==> #[trigger] fs[k] == (declared@[k].0@, declared@[k].1@),
            plain ==> fs == struct_fields_of(scope.scopes@, struct_ty@, alias_fuel(scope.scopes@))->Some_0,
            plain ==> provided.len() == i && forall|k: int| 0 <= k < i ==> (#[trigger] provided@[k]).0@ == orig@[k].0@
                && provided@[k].1.inferred_type@ == fs[k].1,
            forall|p: int| 0 <= p < provided.len() ==> given_field(orig@, scope.scopes@, #[trigger] provided@[p]),
            cache.wf(),
        decreases n - i,
    {
        let (fname, fexpr) = rest.remove(0);
        proof {
            assert(fexpr == orig@[i as int].1);
            assert(fname == orig@[i as int].0);
            assert(decreases_to!(orig => orig@));
            assert(decreases_to!(orig@ => orig@[i as int]));
            assert(decreases_to!(orig@[i as int] => orig@[i as int].1));
            assert(rest@ =~= orig@.subrange(i + 1, n as int));
        }
        if field_position(&declared, fname.value.as_str()).is_none() {
            let mut m = str_to_string("field ");
            push_str(&mut m, fname.value.as_str());
            push_str(&mut m, " not found in struct ");
            push_str(&mut m, struct_name.value.as_str());
            return Err(AnalysisError::from_message(m));
        }
        let mut k: usize = 0;
        while k < provided.len()
            invariant
                0 <= k <= provided.len(),
            decreases provided.len() - k,
        {
            if str_eq(provided[k].0.as_str(), fname.value.as_str()) {
                let mut m = str_to_string("duplicate field ");
                push_str(&mut m, fname.value.as_str());
                push_str(&mut m, " in construction of ");
                push_str(&mut m, struct_name.value.as_str());
                return Err(AnalysisError::from_message(m));
            }
            k = k + 1;
        }
        let fval = expr_to_typed(fexpr, scope, cache, fuel)?;
        let ghost before_push = provided@;
        proof {
            assert(typed_as(orig@[i as int].1, scope.scopes@, fval));
            assert(given_field(orig@, scope.scopes@, (fname.value, fval)));
        }
        provided.push((fname.value, fval));
        i = i + 1;
    }
    proof {
        lemma_fields_view(declared@);
    }
    let ghost all_provided = provided@;
    proof {
        if plain {
            assert(all_provided.subrange(0, n as int) =~= all_provided);
            assert forall|k: int| 0 <= k < n implies (#[trigger] all_provided[k]).0@ == declared@[k].0@
                && all_provided[k].1.inferred_type@ == declared@[k].1@
                && forall|q: int| 0 <= q < n && q != k ==> declared@[q].0@ != declared@[k].0@ by {
                assert(fs[k] == (declared@[k].0@, declared@[k].1@));
                assert forall|q: int| 0 <= q < n && q != k implies declared@[q].0@ != declared@[k].0@ by {
                    assert(fs[q] == (declared@[q].0@, declared@[q].1@));
                }
            }
        }
    }
    let mut typed_fields: Vec<(String, TypedExpr)> = Vec::new();
    let mut j: usize = 0;
    while j < declared.len()
        invariant
            0 <= j <= declared.len(),
            plain ==> declared.len() == n && all_provided.len() == n
                && provided@ == all_provided.subrange(j as int, n as int)
                && forall|k: int| 0 <= k < n ==> (#[trigger] all_provided[k]).0@ == declared@[k].0@
                    && all_provided[k].1.inferred_type@ == declared@[k].1@
                    && forall|q: int| 0 <= q < n && q != k ==> declared@[q].0@ != declared@[k].0@,
            typed_fields.len() == j,
            forall|k: int| 0 <= k < j ==> (#[trigger] typed_fields@[k]).0@ == declared@[k].0@
                && typed_fields@[k].1.inferred_type@ == declared@[k].1@,
            forall|p: int| 0 <= p < provided.len() ==> given_field(orig@, scope.scopes@, #[trigger] provided@[p]),
            forall|k: int| 0 <= k < j ==> fitted_field(orig@, scope.scopes@, #[trigger] typed_fields@[k]),
        decreases declared.len() - j,
    {
        let mut pos: usize = 0;
        let mut found = false;
        while pos < provided.len()
            invariant
                0 <= pos <= provided.len(),
                found ==> pos < provided.len() && provided@[pos as int].0@ == declared@[j as int].0@,
                plain ==> pos == 0 && !found,
            decreases provided.len() - pos,
        {
            if str_eq(provided[pos].0.as_str(), declared[j].0.as_str()) {
                found = true;
                break;
            }
            pos = pos + 1;
        }
        if !found || pos >= provided.len() {
            let mut m = str_to_string("missing field ");
            push_str(&mut m, declared[j].0.as_str());
            push_str(&mut m, " in construction of struct ");
            push_str(&mut m, struct_name.value.as_str());
            return Err(AnalysisError::from_message(m));
        }
        let ghost before = provided@;
        let (n2, fval) = provided.remove(pos);
        proof {
            assert((n2, fval) == before[pos as int]);
            assert(given_field(orig@, scope.scopes@, before[pos as int]));
            assert forall|p: int| 0 <= p < provided.len() implies given_field(orig@, scope.scopes@, #[trigger] provided@[p]) by {
                if p < pos {
                    assert(provided@[p] == before[p]);
                } else {
                    assert(provided@[p] == before[p + 1]);
                }
            }
        }
        let ghost f0 = fval;
        match coerce_or_alias(fval, &declared[j].1, scope) {
            Ok(c) => {
                proof {
                    let jj = choose|jj: int| #![trigger orig@[jj]] 0 <= jj < orig@.len() && orig@[jj].0@ == n2@
                        && typed_as(orig@[jj].1, scope.scopes@, f0);
                    let target = declared@[j as int].1@;
                    assert(coerced(f0, target, assign_coercion(scope.scopes@, f0.expression, f0.inferred_type@, target), Ok::<TypedExpr, AnalysisError>(c)));
                    assert(assign_fitted(orig@[jj].1, scope.scopes@, c.inferred_type@, c));
                    assert(fitted_field(orig@, scope.scopes@, (n2, c)));
                }
                typed_fields.push((n2, c));
            },
            Err(_) => {
                let mut m = str_to_string("field ");
                push_str(&mut m, declared[j].0.as_str());
                push_str(&mut m, " of struct ");
                push_str(&mut m, struct_name.value.as_str());
                push_str(&mut m, " expects type ");
                push_str(&mut m, describe_type(&declared[j].1).as_str());
                return Err(AnalysisError::from_message(m));
            },
        }
        j = j + 1;
    }
    proof {
        let fs = fields_view(declared@);
        assert forall|k: int| 0 <= k < fs.len() implies (#[trigger] typed_fields@[k]).0@ == fs[k].0
            && typed_fields@[k].1.inferred_type@ == fs[k].1 by {
            assert(fs[k] == (declared@[k].0@, declared@[k].1@));
        }
    }
    Ok(TypedExpr {
        inferred_type: struct_ty,
        expression: TypedExprKind::StructConstruct { struct_name: struct_name.value, fields: typed_fields },
    })
}

/// `k` is the position of the first variant named `variant` among `vs`.
pub open spec fn first_variant_at(vs: Seq<VariantV>, variant: Seq<char>, k: int) -> bool {
    &&& 0 <= k < vs.len()
    &&& vs[k].name == variant
    &&& forall|j: int| 0 <= j < k ==> vs[j].name != variant
}

/// Field values given for the payload `ps` in its own order, each plain and
/// of the payload field's type, the payload's field names being distinct.
pub open spec fn plain_payload(ps: Seq<(Seq<char>, TyV)>, fields: Seq<(Identifier, Expression)>, scopes: Seq<Scope>) -> bool {
    &&& fields.len() == ps.len()
    &&& forall|i: int| 0 <= i < ps.len() ==> (#[trigger] fields[i]).0@ == ps[i].0 && plain_type(fields[i].1, scopes) == Some(ps[i].1)
    &&& forall|i: int, j: int| 0 <= i < ps.len() && 0 <= j < ps.len() && i != j ==> (#[trigger] ps[i]).0 != (#[trigger] ps[j]).0
}

/// A variant construction whose enum name is bound to a type that resolves
/// to an enum, whose first variant of that name carries a payload, and whose
/// field values fit that payload plainly.
pub open spec fn plain_variant_construction(
    enum_name: Seq<char>,
    variant: Seq<char>,
    fields: Seq<(Identifier, Expression)>,
    scopes: Seq<Scope>,
) -> bool {
    &&& lookup_in(scopes, enum_name) matches Some(TypedSymbol::Type(ty))
    &&& resolved(scopes, ty@) matches TyV::Enum { variants: vs }
    &&& exists|k: int| #[trigger] first_variant_at(vs, variant, k)
        && (vs[k].payload matches Some(ps) && plain_payload(ps, fields, scopes))
}

/// `Enum.Variant { f: e, ... }`: a payload-carrying variant with each of its
/// payload fields supplied.
fn variant_construct_to_typed(
    enum_name: Identifier,
    variant: Identifier,
    fields: Vec<(Identifier, Expression)>,
    scope: &SymbolTable,
    cache: &mut GenericCache,
    fuel: usize,
) -> (r: Result<TypedExpr, AnalysisError>)
    requires
        old(cache).wf(),
        scope.scopes.len() > 0,
    ensures
        final(cache).wf(),
        r matches Ok(t) ==> t.inferred_type@ == TyV::Identifier(enum_name@)
            && (t.expression matches TypedExprKind::EnumVariantConstruct { enum_name: n, variant: v, fields: tf, .. }
                && n@ == enum_name@ && v@ == variant@ && tf.len() == fields.len()
                && forall|i: int| 0 <= i < fields.len() ==> (#[trigger] tf@[i]).0@ == fields@[i].0@
                    && assign_fitted(fields@[i].1, scope.scopes@, tf@[i].1.inferred_type@, tf@[i].1)),
        !(lookup_in(scope.scopes@, enum_name@) matches Some(TypedSymbol::Type(_))) ==> r is Err,
        plain_variant_construction(enum_name@, variant@, fields@, scope.scopes@) ==> r is Ok,
    decreases fuel, 0nat, fields,
{
    let ghost easy = plain_variant_construction(enum_name@, variant@, fields@, scope.scopes@);
    let enum_ty = match scope.lookup(&enum_name) {
        Some(TypedSymbol::Type(ty)) => ty.copy(),
        Some(_) => {
            return Err(AnalysisError::from_message(message3("'", enum_name.value.as_str(), "' is not a type")));
        },
        None => {
            return Err(AnalysisError::from_message(message3(
                "type '",
                enum_name.value.as_str(),
                "' not found for enum variant construction",
            )));
        },
    };
    let resolved = resolve_type_alias(&enum_ty, scope);
    let ghost mut ps: Seq<(Seq<char>, TyV)> = Seq::empty();
    let (vname, discriminant, payload) = match &resolved {
        Ty::Enum { variants } => {
            let mut found: Option<usize> = None;
            let mut i: usize = 0;
            while i < variants.len()
                invariant
                    0 <= i <= variants.len(),
                    found matches Some(k) ==> k == i && k < variants.len() && variants@[k as int].name@ == variant@,
                    forall|j: int| 0 <= j < i ==> variants@[j].name@ != variant@,
                decreases variants.len() - i,
            {
                if str_eq(variants[i].name.as_str(), variant.value.as_str()) {
                    found = Some(i);
                    break;
                }
                i = i + 1;
            }
            proof {
                lemma_variants_view(variants@);
                if easy {
                    let vs = variants_view(variants@);
                    assert(resolved@ == TyV::Enum { variants: vs });
                    let w = choose|w: int| #[trigger] first_variant_at(vs, variant@, w)
                        && (vs[w].payload matches Some(q) && plain_payload(q, fields@, scope.scopes@));
                    assert(vs[w] == variant_view(&variants@[w]));
                    assert(found is Some);
                    let k = found->Some_0 as int;
                    assert(forall|j: int| 0 <= j < k ==> variants@[j].name@ != variant@);
                    if k < w {
                        assert(vs[k] == variant_view(&variants@[k]));
                    } else if w < k {
                        assert(variants@[w].name@ == variant@);
                    }
                    assert(k == w);
                    assert(variants@[k].payload is Some);
                    ps = fields_view(variants@[k].payload->Some_0@);
                    assert(plain_payload(ps, fields@, scope.scopes@));
                }
            }
            match found {
                Some(k) => match &variants[k].payload {
                    Some(p) => (variants[k].name.clone(), variants[k].discriminant, copy_fields(p)),
                    None => {
                        return Err(AnalysisError::from_message(message3("variant '", variant.value.as_str(), "' carries no payload")));
                    },
                },
                None => {
                    let mut m = str_to_string("enum '");
                    push_str(&mut m, enum_name.value.as_str());
                    push_str(&mut m, "' has no variant '");
                    push_str(&mut m, variant.value.as_str());
                    push_str(&mut m, "'");
                    return Err(AnalysisError::from_message(m));
                },
            }
        },
        _ => {
            proof {
                if easy {
                    assert(resolved@ is Enum);
                }
            }
            return Err(AnalysisError::from_message(message3("'", enum_name.value.as_str(), "' is not an enum type")));
        },
    };
    proof {
        lemma_fields_view(payload@);
    }
    let n = fields.len();
    let ghost orig = fields;
    let mut rest = fields;
    let mut typed_fields: Vec<(String, TypedExpr)> = Vec::new();
    let mut i: usize = 0;
    while i < n
        invariant
            n == orig.len(),
            0 <= i <= n,
            rest@ == orig@.subrange(i as int, n as int),
            typed_fields.len() == i,
            forall|p: int| 0 <= p < i ==> (#[trigger] typed_fields@[p]).0@ == orig@[p].0@
                && assign_fitted(orig@[p].1, scope.scopes@, typed_fields@[p].1.inferred_type@, typed_fields@[p].1),
            cache.wf(),
            easy ==> ps == fields_view(payload@) && plain_payload(ps, orig@, scope.scopes@),
            fields_view(payload@).len() == payload.len(),
            forall|q: int| 0 <= q < payload.len() ==> #[trigger] fields_view(payload@)[q] == (payload@[q].0@, payload@[q].1@),
        decreases n - i,
    {
        let (fname, fexpr) = rest.remove(0);
        proof {
            assert(fexpr == orig@[i as int].1);
            assert(fname == orig@[i as int].0);
            assert(decreases_to!(orig => orig@));
            assert(decreases_to!(orig@ => orig@[i as int]));
            assert(decreases_to!(orig@[i as int] => orig@[i as int].1));
            assert(rest@ =~= orig@.subrange(i + 1, n as int));
        }
        proof {
            if easy {
                assert(fname@ == ps[i as int].0);
                assert(fields_view(payload@)[i as int] == (payload@[i as int].0@, payload@[i as int].1@));
            }
        }
        let pos = field_position(&payload, fname.value.as_str());
        proof {
            if easy {
                let k = pos->Some_0 as int;
                assert(fields_view(payload@)[k] == (payload@[k].0@, payload@[k].1@));
                assert(k == i);
            }
        }
        let spec_ty = match pos {
            Some(k) => payload[k].1.copy(),
            None => {
                let mut m = str_to_string("variant '");
                push_str(&mut m, variant.value.as_str());
                push_str(&mut m, "' has no payload field '");
                push_str(&mut m, fname.value.as_str());
                push_str(&mut m, "'");
                return Err(AnalysisError::from_message(m));
            },
        };
        let fval = expr_to_typed(fexpr, scope, cache, fuel)?;
        let ghost f0 = fval;
        match coerce_or_alias(fval, &spec_ty, scope) {
            Ok(c) => {
                proof {
                    assert(coerced(f0, spec_ty@, assign_coercion(scope.scopes@, f0.expression, f0.inferred_type@, spec_ty@), Ok::<TypedExpr, AnalysisError>(c)));
                    assert(typed_as(orig@[i as int].1, scope.scopes@, f0));
                    assert(assign_fitted(orig@[i as int].1, scope.scopes@, c.inferred_type@, c));
                }
                typed_fields.push((fname.value, c));
            },
            Err(_) => {
                let mut m = str_to_string("field '");
                push_str(&mut m, fname.value.as_str());
                push_str(&mut m, "' of variant '");
                push_str(&mut m, variant.value.as_str());
                push_str(&mut m, "' expects type ");
                push_str(&mut m, describe_type(&spec_ty).as_str());
                return Err(AnalysisError::from_message(m));
            },
        }
        i = i + 1;
    }
    proof {
        if easy {
            assert forall|p: int| 0 <= p < payload.len() implies (#[trigger] typed_fields@[p]).0@ == payload@[p].0@ by {
                assert(fields_view(payload@)[p] == (payload@[p].0@, payload@[p].1@));
            }
        }
    }
    let mut j: usize = 0;
    while j < payload.len()
        invariant
            0 <= j <= payload.len(),
            easy ==> typed_fields.len() == payload.len()
                && forall|p: int| 0 <= p < payload.len() ==> (#[trigger] typed_fields@[p]).0@ == payload@[p].0@,
        decreases payload.len() - j,
    {
        let mut present = false;
        let mut k: usize = 0;
        while k < typed_fields.len()
            invariant
                0 <= k <= typed_fields.len(),
                j < payload.len(),
                easy ==> typed_fields.len() == payload.len()
                    && forall|p: int| 0 <= p < payload.len() ==> (#[trigger] typed_fields@[p]).0@ == payload@[p].0@,
                easy && k > j ==> present,
            decreases typed_fields.len() - k,
        {
            if str_eq(typed_fields[k].0.as_str(), payload[j].0.as_str()) {
                present = true;
            }
            k = k + 1;
        }
        if !present {
            let mut m = str_to_string("missing field '");
            push_str(&mut m, payload[j].0.as_str());
            push_str(&mut m, "' in variant '");
            push_str(&mut m, variant.value.as_str());
            push_str(&mut m, "' payload");
            return Err(AnalysisError::from_message(m));
        }
        j = j + 1;
    }
    Ok(TypedExpr {
        inferred_type: Ty::Identifier(enum_name.copy()),
        expression: TypedExprKind::EnumVariantConstruct {
            enum_name: enum_name.value,
            variant: vname,
            discriminant,
            fields: typed_fields,
            enum_type: Box::new(resolved),
        },
    })
}

} // verus!
