//! Generic functions: templates instantiated per list of type arguments.
#![verifier::loop_isolation(false)]
use vstd::prelude::*;

use crate::diagnostics::Span;
use crate::frontend::analyze::cache::GenericCache;
use crate::frontend::analyze::expressions::message3;
use crate::frontend::analyze::functions::{func_to_typed, signature_to_typed};
use crate::frontend::analyze::AnalysisError;
use crate::frontend::ast::{
    Expression, ExpressionKind, Field, FunctionDeclaration, FunctionParameter, Statement, StatementKind, SwitchArm,
    TypeExpression, TypeExpressionKind, VariableDeclaration,
};
use crate::frontend::tokens::{Identifier, builtin_spelling};
use crate::frontend::analyze::types::{field_types_of, lemma_field_types_of, lemma_types_of, type_of, types_of};
use crate::frontend::typed_ast::{lookup_in, GenericFunctionTemplate, Scope, SymbolTable, Ty, TyV, TypedFunction, TypedSymbol};
use crate::text::{decimal, push_decimal, push_str, str_to_string};

verus! {

/// Whether some parameter of `f` has the type `type`.
pub open spec fn generic_decl(f: FunctionDeclaration) -> bool {
    exists|i: int| 0 <= i < f.signature.parameters.len()
        && (#[trigger] f.signature.parameters@[i]).parameter_type.kind is TypeKeyword
}

/// A function with at least one `type`-typed parameter is generic.
pub fn is_generic_function(f: &FunctionDeclaration) -> (r: bool)
    ensures
        r == generic_decl(*f),
{
    let mut i: usize = 0;
    while i < f.signature.parameters.len()
        invariant
            0 <= i <= f.signature.parameters.len(),
            forall|j: int| 0 <= j < i ==> !((#[trigger] f.signature.parameters@[j]).parameter_type.kind is TypeKeyword),
        decreases f.signature.parameters.len() - i,
    {
        match &f.signature.parameters[i].parameter_type.kind {
            TypeExpressionKind::TypeKeyword => {
                return true;
            },
            _ => {},
        }
        i = i + 1;
    }
    false
}

/// The positions of the `type`-typed parameters.
pub fn comptime_param_indices(f: &FunctionDeclaration) -> (r: Vec<usize>)
    ensures
        forall|k: int| 0 <= k < r.len() ==> (#[trigger] r@[k]) < f.signature.parameters.len()
            && f.signature.parameters@[r@[k] as int].parameter_type.kind is TypeKeyword,
        forall|i: int| 0 <= i < f.signature.parameters.len()
            && (#[trigger] f.signature.parameters@[i]).parameter_type.kind is TypeKeyword ==> r@.contains(i as usize),
{
    let mut out: Vec<usize> = Vec::new();
    let mut i: usize = 0;
    while i < f.signature.parameters.len()
        invariant
            0 <= i <= f.signature.parameters.len(),
            forall|k: int| 0 <= k < out.len() ==> (#[trigger] out@[k]) < i
                && f.signature.parameters@[out@[k] as int].parameter_type.kind is TypeKeyword,
            forall|j: int| 0 <= j < i && (#[trigger] f.signature.parameters@[j]).parameter_type.kind is TypeKeyword
                ==> out@.contains(j as usize),
        decreases f.signature.parameters.len() - i,
    {
        match &f.signature.parameters[i].parameter_type.kind {
            TypeExpressionKind::TypeKeyword => {
                let ghost before = out@;
                out.push(i);
                proof {
                    assert(out@[out.len() - 1] == i);
                    assert forall|j: int| 0 <= j < i && (#[trigger] f.signature.parameters@[j]).parameter_type.kind is TypeKeyword
                        implies out@.contains(j as usize) by {
                        assert(before.contains(j as usize));
                        let k = choose|k: int| 0 <= k < before.len() && before[k] == j as usize;
                        assert(out@[k] == before[k]);
                    }
                }
            },
            _ => {},
        }
        i = i + 1;
    }
    out
}

/// The name a type argument contributes to an instantiated function's name:
/// `@int4`, `ptr_T`, `arr4_@int1`, `tuple_A_B`, `m__T`, ...
pub open spec fn mangled(te: TypeExpression) -> Seq<char>
    decreases te,
{
    proof { assert(decreases_to!(te => te.kind)); }
    match te.kind {
        TypeExpressionKind::Builtin(b) => builtin_spelling(b),
        TypeExpressionKind::Identifier(id) => id@,
        TypeExpressionKind::Pointer { pointed_type } => "ptr_"@ + mangled(*pointed_type),
        TypeExpressionKind::Array { element_type, size } => "arr"@ + decimal(size as nat) + "_"@ + mangled(*element_type),
        TypeExpressionKind::Slice { element_type } => "slice_"@ + mangled(*element_type),
        TypeExpressionKind::Struct { .. } => "struct"@,
        TypeExpressionKind::Enum { .. } => "enum"@,
        TypeExpressionKind::Function { .. } => "fn"@,
        TypeExpressionKind::Tuple { elements } => {
            proof { assert(decreases_to!(elements => elements@)); }
            "tuple_"@ + mangled_list(elements@)
        },
        TypeExpressionKind::QualifiedIdentifier { module, name } => module@ + "__"@ + name@,
        TypeExpressionKind::TypeKeyword => "type"@,
    }
}

/// The mangled names of `s`, separated by `_`.
pub open spec fn mangled_list(s: Seq<TypeExpression>) -> Seq<char>
    decreases s,
{
    if s.len() == 0 {
        Seq::empty()
    } else {
        proof {
            assert(decreases_to!(s => s.drop_last()));
            assert(decreases_to!(s => s[s.len() - 1]));
        }
        if s.len() == 1 {
            mangled(s[0])
        } else {
            mangled_list(s.drop_last()) + "_"@ + mangled(s[s.len() - 1])
        }
    }
}

/// What a type argument contributes to an instance's name: a type
/// expression its mangled name, a type name itself.
pub open spec fn type_arg_name(e: Expression) -> Seq<char> {
    match e.kind {
        ExpressionKind::TypeValue(te) => mangled(te),
        ExpressionKind::Identifier(id) => id@,
        _ => Seq::empty(),
    }
}

/// `__<arg>` for each argument at the positions `idxs`, in order.
pub open spec fn instance_suffix(args: Seq<Expression>, idxs: Seq<usize>) -> Seq<char>
    decreases idxs.len(),
{
    if idxs.len() == 0 {
        Seq::empty()
    } else {
        instance_suffix(args, idxs.drop_last()) + "__"@ + type_arg_name(args[idxs.last() as int])
    }
}

/// The name of the instance of `t` for the call arguments `args`:
/// `name__T1__T2...`, or `name__` for a template without type parameters.
pub open spec fn instance_name(t: GenericFunctionTemplate, args: Seq<Expression>) -> Seq<char> {
    if t.comptime_params.len() == 0 {
        t.name@ + "__"@
    } else {
        t.name@ + instance_suffix(args, t.comptime_params@)
    }
}

/// The compile-time arguments of a call of `t` are types: each compile-time
/// parameter position is one of the declared parameters, a call argument
/// stands there, and it is a type expression or a name bound to a type.
pub open spec fn type_arguments_given(t: GenericFunctionTemplate, args: Seq<Expression>, scopes: Seq<Scope>) -> bool {
    forall|k: int| 0 <= k < t.comptime_params.len() ==> type_argument_at(t, args, scopes, #[trigger] t.comptime_params@[k])
}

/// The parameter position `idx` of `t` is declared and filled by a type.
pub open spec fn type_argument_at(t: GenericFunctionTemplate, args: Seq<Expression>, scopes: Seq<Scope>, idx: usize) -> bool {
    &&& idx < t.ast_decl.signature.parameters.len()
    &&& idx < args.len()
    &&& match args[idx as int].kind {
        ExpressionKind::TypeValue(_) => true,
        ExpressionKind::Identifier(id) => lookup_in(scopes, id@) matches Some(TypedSymbol::Type(_)),
        _ => false,
    }
}

/// A stable name for a type argument, used in instantiated function names.
pub fn mangle_type_expr(te: &TypeExpression) -> (s: String)
    ensures
        s@ == mangled(*te),
    decreases te, 0nat,
{
    match &te.kind {
        TypeExpressionKind::Builtin(b) => str_to_string(b.spelling()),
        TypeExpressionKind::Identifier(id) => id.value.clone(),
        TypeExpressionKind::Pointer { pointed_type } => {
            let mut s = str_to_string("ptr_");
            push_str(&mut s, mangle_type_expr(&**pointed_type).as_str());
            s
        },
        TypeExpressionKind::Array { element_type, size } => {
            let mut s = str_to_string("arr");
            push_decimal(&mut s, *size);
            push_str(&mut s, "_");
            push_str(&mut s, mangle_type_expr(&**element_type).as_str());
            s
        },
        TypeExpressionKind::Slice { element_type } => {
            let mut s = str_to_string("slice_");
            push_str(&mut s, mangle_type_expr(&**element_type).as_str());
            s
        },
        TypeExpressionKind::Struct { .. } => str_to_string("struct"),
        TypeExpressionKind::Enum { .. } => str_to_string("enum"),
        TypeExpressionKind::Function { .. } => str_to_string("fn"),
        TypeExpressionKind::Tuple { elements } => {
            let mut s = str_to_string("tuple_");
            let mut i: usize = 0;
            proof {
                assert(elements@.subrange(0, 0) =~= Seq::<TypeExpression>::empty());
                assert(s@ =~= "tuple_"@ + mangled_list(elements@.subrange(0, 0)));
            }
            while i < elements.len()
                invariant
                    0 <= i <= elements.len(),
                    s@ == "tuple_"@ + mangled_list(elements@.subrange(0, i as int)),
                decreases elements.len() - i,
            {
                proof {
                    assert(decreases_to!(te => te.kind));
                    assert(decreases_to!(*elements => elements@));
                    assert(decreases_to!(elements@ => elements@[i as int]));
                    assert(elements@.subrange(0, i + 1).drop_last() =~= elements@.subrange(0, i as int));
                }
                if i > 0 {
                    push_str(&mut s, "_");
                }
                push_str(&mut s, mangle_type_expr(&elements[i]).as_str());
                proof {
                    assert(s@ =~= "tuple_"@ + mangled_list(elements@.subrange(0, i + 1)));
                }
                i = i + 1;
            }
            proof {
                assert(elements@.subrange(0, i as int) =~= elements@);
            }
            s
        },
        TypeExpressionKind::QualifiedIdentifier { module, name } => {
            let mut s = module.value.clone();
            push_str(&mut s, "__");
            push_str(&mut s, name.value.as_str());
            s
        },
        TypeExpressionKind::TypeKeyword => str_to_string("type"),
    }
}

/// The type expression bound to `name` in `subs` (the last binding wins).
pub open spec fn bound_type(subs: Seq<(String, TypeExpression)>, name: Seq<char>) -> Option<TypeExpression>
    decreases subs.len(),
{
    if subs.len() == 0 {
        None
    } else if subs.last().0@ == name {
        Some(subs.last().1)
    } else {
        bound_type(subs.drop_last(), name)
    }
}

/// `t` with every type name bound in `subs` replaced by the type it is bound
/// to, through pointers, arrays, slices, struct fields, function types and
/// tuples; enum payloads are left as they are.
pub open spec fn substituted(t: TyV, subs: Seq<(String, TypeExpression)>) -> TyV
    decreases t,
{
    match t {
        TyV::Identifier(name) => match bound_type(subs, name) {
            Some(r) => type_of(&r),
            None => t,
        },
        TyV::Pointer(p) => TyV::Pointer(Box::new(substituted(*p, subs))),
        TyV::Array { element_type, size } => TyV::Array {
            element_type: Box::new(substituted(*element_type, subs)),
            size,
        },
        TyV::Slice(p) => TyV::Slice(Box::new(substituted(*p, subs))),
        TyV::Struct { fields } => TyV::Struct { fields: substituted_fields(fields, subs) },
        TyV::Function { argument_types, return_type } => TyV::Function {
            argument_types: substituted_list(argument_types, subs),
            return_type: Box::new(substituted(*return_type, subs)),
        },
        TyV::Tuple { elements } => TyV::Tuple { elements: substituted_list(elements, subs) },
        _ => t,
    }
}

pub open spec fn substituted_list(s: Seq<TyV>, subs: Seq<(String, TypeExpression)>) -> Seq<TyV>
    decreases s,
{
    if s.len() == 0 {
        Seq::empty()
    } else {
        proof {
            assert(decreases_to!(s => s.drop_last()));
            assert(decreases_to!(s => s[s.len() - 1]));
        }
        substituted_list(s.drop_last(), subs).push(substituted(s[s.len() - 1], subs))
    }
}

pub open spec fn substituted_fields(s: Seq<(Seq<char>, TyV)>, subs: Seq<(String, TypeExpression)>) -> Seq<(Seq<char>, TyV)>
    decreases s,
{
    if s.len() == 0 {
        Seq::empty()
    } else {
        proof {
            assert(decreases_to!(s => s.drop_last()));
            assert(decreases_to!(s => s[s.len() - 1]));
            assert(decreases_to!(s[s.len() - 1] => s[s.len() - 1].1));
        }
        substituted_fields(s.drop_last(), subs).push((s[s.len() - 1].0, substituted(s[s.len() - 1].1, subs)))
    }
}

proof fn lemma_substituted_list(s: Seq<TyV>, subs: Seq<(String, TypeExpression)>)
    ensures
        substituted_list(s, subs).len() == s.len(),
        forall|i: int| 0 <= i < s.len() ==> #[trigger] substituted_list(s, subs)[i] == substituted(s[i], subs),
    decreases s.len(),
{
    if s.len() > 0 {
        lemma_substituted_list(s.drop_last(), subs);
    }
}

proof fn lemma_substituted_fields(s: Seq<(Seq<char>, TyV)>, subs: Seq<(String, TypeExpression)>)
    ensures
        substituted_fields(s, subs).len() == s.len(),
        forall|i: int| 0 <= i < s.len() ==> #[trigger] substituted_fields(s, subs)[i] == (s[i].0, substituted(s[i].1, subs)),
    decreases s.len(),
{
    if s.len() > 0 {
        lemma_substituted_fields(s.drop_last(), subs);
    }
}

/// `t` mentions the type name `n`, through pointers, arrays, slices, struct
/// fields, function and tuple types (enum payloads are not looked into).
pub open spec fn mentions(t: TyV, n: Seq<char>) -> bool
    decreases t,
{
    match t {
        TyV::Identifier(x) => x == n,
        TyV::Pointer(p) => mentions(*p, n),
        TyV::Slice(p) => mentions(*p, n),
        TyV::Array { element_type, .. } => mentions(*element_type, n),
        TyV::Struct { fields } => mentions_fields(fields, n),
        TyV::Function { argument_types, return_type } => mentions_list(argument_types, n) || mentions(*return_type, n),
        TyV::Tuple { elements } => mentions_list(elements, n),
        _ => false,
    }
}

/// Some type of `s` mentions `n`.
pub open spec fn mentions_list(s: Seq<TyV>, n: Seq<char>) -> bool
    decreases s,
{
    if s.len() == 0 {
        false
    } else {
        proof {
            assert(decreases_to!(s => s.drop_last()));
            assert(decreases_to!(s => s[s.len() - 1]));
        }
        mentions_list(s.drop_last(), n) || mentions(s[s.len() - 1], n)
    }
}

/// Some field type of `s` mentions `n`.
pub open spec fn mentions_fields(s: Seq<(Seq<char>, TyV)>, n: Seq<char>) -> bool
    decreases s,
{
    if s.len() == 0 {
        false
    } else {
        proof {
            assert(decreases_to!(s => s.drop_last()));
            assert(decreases_to!(s => s[s.len() - 1]));
            assert(decreases_to!(s[s.len() - 1] => s[s.len() - 1].1));
        }
        mentions_fields(s.drop_last(), n) || mentions(s[s.len() - 1].1, n)
    }
}

/// What a name is bound to is one of the substitutions.
proof fn lemma_bound_is_given(subs: Seq<(String, TypeExpression)>, name: Seq<char>)
    requires
        bound_type(subs, name) is Some,
    ensures
        exists|i: int| 0 <= i < subs.len() && subs[i].1 == bound_type(subs, name)->0,
    decreases subs.len(),
{
    if subs.last().0@ == name {
        assert(subs[subs.len() - 1].1 == bound_type(subs, name)->0);
    } else {
        lemma_bound_is_given(subs.drop_last(), name);
        let i = choose|i: int| 0 <= i < subs.drop_last().len() && subs.drop_last()[i].1 == bound_type(subs.drop_last(), name)->0;
        assert(subs[i] == subs.drop_last()[i]);
    }
}

/// Substitution leaves no bound name behind: once `n` is bound, it occurs
/// nowhere in the result, under pointers, arrays, slices, fields, function
/// and tuple types alike, unless one of the substituted types brings it.
pub proof fn lemma_substituted_free(t: TyV, subs: Seq<(String, TypeExpression)>, n: Seq<char>)
    requires
        bound_type(subs, n) is Some,
        forall|i: int| 0 <= i < subs.len() ==> !mentions(type_of(&(#[trigger] subs[i]).1), n),
    ensures
        !mentions(substituted(t, subs), n),
    decreases t,
{
    match t {
        TyV::Identifier(x) => {
            if bound_type(subs, x) is Some {
                lemma_bound_is_given(subs, x);
                let i = choose|i: int| 0 <= i < subs.len() && subs[i].1 == bound_type(subs, x)->0;
                assert(!mentions(type_of(&subs[i].1), n));
            }
        },
        TyV::Pointer(p) => lemma_substituted_free(*p, subs, n),
        TyV::Slice(p) => lemma_substituted_free(*p, subs, n),
        TyV::Array { element_type, .. } => lemma_substituted_free(*element_type, subs, n),
        TyV::Struct { fields } => lemma_substituted_free_fields(fields, subs, n),
        TyV::Function { argument_types, return_type } => {
            lemma_substituted_free_list(argument_types, subs, n);
            lemma_substituted_free(*return_type, subs, n);
        },
        TyV::Tuple { elements } => lemma_substituted_free_list(elements, subs, n),
        _ => {},
    }
}

/// The list form of `lemma_substituted_free`.
pub proof fn lemma_substituted_free_list(s: Seq<TyV>, subs: Seq<(String, TypeExpression)>, n: Seq<char>)
    requires
        bound_type(subs, n) is Some,
        forall|i: int| 0 <= i < subs.len() ==> !mentions(type_of(&(#[trigger] subs[i]).1), n),
    ensures
        !mentions_list(substituted_list(s, subs), n),
    decreases s,
{
    if s.len() > 0 {
        assert(decreases_to!(s => s.drop_last()));
        assert(decreases_to!(s => s[s.len() - 1]));
        let sl = substituted_list(s, subs);
        assert(sl.drop_last() =~= substituted_list(s.drop_last(), subs));
        lemma_substituted_free_list(s.drop_last(), subs, n);
        lemma_substituted_free(s[s.len() - 1], subs, n);
    }
}

/// The field form of `lemma_substituted_free`.
pub proof fn lemma_substituted_free_fields(s: Seq<(Seq<char>, TyV)>, subs: Seq<(String, TypeExpression)>, n: Seq<char>)
    requires
        bound_type(subs, n) is Some,
        forall|i: int| 0 <= i < subs.len() ==> !mentions(type_of(&(#[trigger] subs[i]).1), n),
    ensures
        !mentions_fields(substituted_fields(s, subs), n),
    decreases s,
{
    if s.len() > 0 {
        assert(decreases_to!(s => s.drop_last()));
        assert(decreases_to!(s => s[s.len() - 1]));
        assert(decreases_to!(s[s.len() - 1] => s[s.len() - 1].1));
        let sf = substituted_fields(s, subs);
        assert(sf.drop_last() =~= substituted_fields(s.drop_last(), subs));
        lemma_substituted_free_fields(s.drop_last(), subs, n);
        lemma_substituted_free(s[s.len() - 1].1, subs, n);
    }
}

/// The replacement for the type name `name`: the last substitution for it.
fn lookup_subst<'a>(subs: &'a Vec<(String, TypeExpression)>, name: &str) -> (r: Option<&'a TypeExpression>)
    ensures
        match r {
            Some(t) => bound_type(subs@, name@) == Some(*t),
            None => bound_type(subs@, name@) is None,
        },
{
    let mut i = subs.len();
    assert(subs@.subrange(0, i as int) =~= subs@);
    while i > 0
        invariant
            i <= subs.len(),
            bound_type(subs@, name@) == bound_type(subs@.subrange(0, i as int), name@),
        decreases i,
    {
        assert(subs@.subrange(0, i as int).drop_last() =~= subs@.subrange(0, i - 1));
        if crate::frontend::typed_ast::str_eq(subs[i - 1].0.as_str(), name) {
            return Some(&subs[i - 1].1);
        }
        i = i - 1;
    }
    None
}

/// `te` with every type name bound in `subs` replaced.
pub fn substitute_type(te: &TypeExpression, subs: &Vec<(String, TypeExpression)>) -> (r: TypeExpression)
    ensures
        type_of(&r) == substituted(type_of(te), subs@),
        forall|n: Seq<char>| bound_type(subs@, n) is Some && (forall|i: int| 0 <= i < subs.len() ==> !mentions(
            type_of(&(#[trigger] subs@[i]).1),
            n,
        )) ==> !mentions(type_of(&r), n),
    decreases te, 0nat,
{
    proof {
        assert forall|n: Seq<char>| bound_type(subs@, n) is Some && (forall|i: int| 0 <= i < subs.len() ==> !mentions(
            type_of(&(#[trigger] subs@[i]).1),
            n,
        )) implies !mentions(substituted(type_of(te), subs@), n) by {
            lemma_substituted_free(type_of(te), subs@, n);
        }
    }
    let span = te.span;
    match &te.kind {
        TypeExpressionKind::Identifier(id) => match lookup_subst(subs, id.value.as_str()) {
            Some(replacement) => replacement.clone(),
            None => te.clone(),
        },
        TypeExpressionKind::Pointer { pointed_type } => TypeExpression::at(
            TypeExpressionKind::Pointer { pointed_type: Box::new(substitute_type(&**pointed_type, subs)) },
            span,
        ),
        TypeExpressionKind::Array { element_type, size } => TypeExpression::at(
            TypeExpressionKind::Array { element_type: Box::new(substitute_type(&**element_type, subs)), size: *size },
            span,
        ),
        TypeExpressionKind::Slice { element_type } => TypeExpression::at(
            TypeExpressionKind::Slice { element_type: Box::new(substitute_type(&**element_type, subs)) },
            span,
        ),
        TypeExpressionKind::Struct { fields } => {
            let mut out: Vec<Field> = Vec::new();
            let mut i: usize = 0;
            while i < fields.len()
                invariant
                    0 <= i <= fields.len(),
                    out.len() == i,
                    forall|j: int| 0 <= j < i ==> (#[trigger] out@[j]).label@ == fields@[j].label@ && type_of(&out@[j].type_id)
                        == substituted(type_of(&fields@[j].type_id), subs@),
                decreases fields.len() - i,
            {
                proof {
                    assert(decreases_to!(te => te.kind));
                    assert(decreases_to!(*fields => fields@));
                    assert(decreases_to!(fields@ => fields@[i as int]));
                    assert(decreases_to!(fields@[i as int] => fields@[i as int].type_id));
                }
                out.push(Field { label: fields[i].label.clone(), type_id: substitute_type(&fields[i].type_id, subs) });
                i = i + 1;
            }
            proof {
                lemma_field_types_of(out@);
                lemma_field_types_of(fields@);
                lemma_substituted_fields(field_types_of(fields@), subs@);
                assert(field_types_of(out@) =~= substituted_fields(field_types_of(fields@), subs@));
            }
            TypeExpression::at(TypeExpressionKind::Struct { fields: out }, span)
        },
        TypeExpressionKind::Function { argument_types, return_type } => {
            proof {
                assert(decreases_to!(te => te.kind));
                assert(decreases_to!(*argument_types => argument_types@));
            }
            TypeExpression::at(
                TypeExpressionKind::Function {
                    argument_types: substitute_types(argument_types, subs),
                    return_type: Box::new(substitute_type(&**return_type, subs)),
                },
                span,
            )
        },
        TypeExpressionKind::Tuple { elements } => {
            proof {
                assert(decreases_to!(te => te.kind));
                assert(decreases_to!(*elements => elements@));
            }
            TypeExpression::at(TypeExpressionKind::Tuple { elements: substitute_types(elements, subs) }, span)
        },
        _ => te.clone(),
    }
}

fn substitute_types(v: &Vec<TypeExpression>, subs: &Vec<(String, TypeExpression)>) -> (r: Vec<TypeExpression>)
    ensures
        types_of(r@) == substituted_list(types_of(v@), subs@),
    decreases v@, 0nat,
{
    let mut out: Vec<TypeExpression> = Vec::new();
    let mut i: usize = 0;
    while i < v.len()
        invariant
            0 <= i <= v.len(),
            out.len() == i,
            forall|j: int| 0 <= j < i ==> type_of(&(#[trigger] out@[j])) == substituted(type_of(&v@[j]), subs@),
        decreases v.len() - i,
    {
        proof { assert(decreases_to!(v@ => v@[i as int])); }
        out.push(substitute_type(&v[i], subs));
        i = i + 1;
    }
    proof {
        lemma_types_of(out@);
        lemma_types_of(v@);
        lemma_substituted_list(types_of(v@), subs@);
        assert(types_of(out@) =~= substituted_list(types_of(v@), subs@));
    }
    out
}

// ---------------------------------------------------------------------------
// Substitution through expressions and statements
// ---------------------------------------------------------------------------

/// `r` is `e` with `subs` applied to the target type of every cast: the
/// same tree, the same names, operators and positions.
pub open spec fn expr_subst(e: Expression, r: Expression, subs: Seq<(String, TypeExpression)>) -> bool
    decreases e,
{
    proof { assert(decreases_to!(e => e.kind)); }
    &&& r.span == e.span
    &&& match e.kind {
        ExpressionKind::Cast { expr, target_type } => match r.kind {
            ExpressionKind::Cast { expr: r_expr, target_type: r_type } => type_of(&r_type) == substituted(
                type_of(&target_type),
                subs,
            ) && expr_subst(*expr, *r_expr, subs),
            _ => false,
        },
        ExpressionKind::Binary { left, operator, right } => match r.kind {
            ExpressionKind::Binary { left: r_left, operator: r_op, right: r_right } => r_op == operator && expr_subst(
                *left,
                *r_left,
                subs,
            ) && expr_subst(*right, *r_right, subs),
            _ => false,
        },
        ExpressionKind::Unary { operator, expression } => match r.kind {
            ExpressionKind::Unary { operator: r_op, expression: r_e } => r_op == operator && expr_subst(
                *expression,
                *r_e,
                subs,
            ),
            _ => false,
        },
        ExpressionKind::Call { callee, args } => match r.kind {
            ExpressionKind::Call { callee: r_callee, args: r_args } => {
                proof { assert(decreases_to!(args => args@)); }
                expr_subst(*callee, *r_callee, subs) && exprs_subst(args@, r_args@, subs)
            },
            _ => false,
        },
        ExpressionKind::FieldAccess { object, field } => match r.kind {
            ExpressionKind::FieldAccess { object: r_obj, field: r_field } => r_field == field && expr_subst(
                *object,
                *r_obj,
                subs,
            ),
            _ => false,
        },
        ExpressionKind::AddressOf(inner) => match r.kind {
            ExpressionKind::AddressOf(r_inner) => expr_subst(*inner, *r_inner, subs),
            _ => false,
        },
        ExpressionKind::Dereference(inner) => match r.kind {
            ExpressionKind::Dereference(r_inner) => expr_subst(*inner, *r_inner, subs),
            _ => false,
        },
        ExpressionKind::Grouping(inner) => match r.kind {
            ExpressionKind::Grouping(r_inner) => expr_subst(*inner, *r_inner, subs),
            _ => false,
        },
        ExpressionKind::IndexAccess { object, index } => match r.kind {
            ExpressionKind::IndexAccess { object: r_obj, index: r_idx } => expr_subst(*object, *r_obj, subs)
                && expr_subst(*index, *r_idx, subs),
            _ => false,
        },
        ExpressionKind::ArrayLiteral { elements } => match r.kind {
            ExpressionKind::ArrayLiteral { elements: r_elems } => {
                proof { assert(decreases_to!(elements => elements@)); }
                exprs_subst(elements@, r_elems@, subs)
            },
            _ => false,
        },
        ExpressionKind::StructConstruct { struct_name, fields } => match r.kind {
            ExpressionKind::StructConstruct { struct_name: r_name, fields: r_fields } => {
                proof { assert(decreases_to!(fields => fields@)); }
                r_name == struct_name && named_exprs_subst(fields@, r_fields@, subs)
            },
            _ => false,
        },
        _ => r.kind == e.kind,
    }
}

/// `expr_subst` element by element.
pub open spec fn exprs_subst(a: Seq<Expression>, b: Seq<Expression>, subs: Seq<(String, TypeExpression)>) -> bool
    decreases a,
{
    &&& a.len() == b.len()
    &&& a.len() > 0 ==> {
        proof {
            assert(decreases_to!(a => a.drop_last()));
            assert(decreases_to!(a => a[a.len() - 1]));
        }
        exprs_subst(a.drop_last(), b.drop_last(), subs) && expr_subst(a[a.len() - 1], b[b.len() - 1], subs)
    }
}

/// `expr_subst` on the values of named fields, the names kept.
pub open spec fn named_exprs_subst(
    a: Seq<(Identifier, Expression)>,
    b: Seq<(Identifier, Expression)>,
    subs: Seq<(String, TypeExpression)>,
) -> bool
    decreases a,
{
    &&& a.len() == b.len()
    &&& a.len() > 0 ==> {
        proof {
            assert(decreases_to!(a => a.drop_last()));
            assert(decreases_to!(a => a[a.len() - 1]));
            assert(decreases_to!(a[a.len() - 1] => a[a.len() - 1].1));
        }
        named_exprs_subst(a.drop_last(), b.drop_last(), subs) && b[b.len() - 1].0 == a[a.len() - 1].0
            && expr_subst(a[a.len() - 1].1, b[b.len() - 1].1, subs)
    }
}

pub open spec fn opt_expr_subst(a: Option<Expression>, b: Option<Expression>, subs: Seq<(String, TypeExpression)>) -> bool {
    match (a, b) {
        (Some(x), Some(y)) => expr_subst(x, y, subs),
        (None, None) => true,
        _ => false,
    }
}

/// `e` with the type arguments substituted in its casts.
pub fn substitute_in_expr(e: Expression, subs: &Vec<(String, TypeExpression)>) -> (r: Expression)
    ensures
        expr_subst(e, r, subs@),
    decreases e,
{
    let span = e.span;
    let kind = match e.kind {
        ExpressionKind::Cast { expr, target_type } => ExpressionKind::Cast {
            target_type: substitute_type(&target_type, subs),
            expr: Box::new(substitute_in_expr(*expr, subs)),
        },
        ExpressionKind::Binary { left, operator, right } => ExpressionKind::Binary {
            left: Box::new(substitute_in_expr(*left, subs)),
            operator,
            right: Box::new(substitute_in_expr(*right, subs)),
        },
        ExpressionKind::Unary { operator, expression } => ExpressionKind::Unary {
            operator,
            expression: Box::new(substitute_in_expr(*expression, subs)),
        },
        ExpressionKind::Call { callee, args } => ExpressionKind::Call {
            callee: Box::new(substitute_in_expr(*callee, subs)),
            args: substitute_in_exprs(args, subs),
        },
        ExpressionKind::FieldAccess { object, field } => ExpressionKind::FieldAccess {
            object: Box::new(substitute_in_expr(*object, subs)),
            field,
        },
        ExpressionKind::AddressOf(inner) => ExpressionKind::AddressOf(Box::new(substitute_in_expr(*inner, subs))),
        ExpressionKind::Dereference(inner) => ExpressionKind::Dereference(Box::new(substitute_in_expr(*inner, subs))),
        ExpressionKind::Grouping(inner) => ExpressionKind::Grouping(Box::new(substitute_in_expr(*inner, subs))),
        ExpressionKind::IndexAccess { object, index } => ExpressionKind::IndexAccess {
            object: Box::new(substitute_in_expr(*object, subs)),
            index: Box::new(substitute_in_expr(*index, subs)),
        },
        ExpressionKind::ArrayLiteral { elements } => ExpressionKind::ArrayLiteral { elements: substitute_in_exprs(elements, subs) },
        ExpressionKind::StructConstruct { struct_name, fields } => ExpressionKind::StructConstruct {
            struct_name,
            fields: substitute_in_fields(fields, subs),
        },
        other => other,
    };
    Expression::at(kind, span)
}

#[verifier::rlimit(40)]
fn substitute_in_exprs(v: Vec<Expression>, subs: &Vec<(String, TypeExpression)>) -> (r: Vec<Expression>)
    ensures
        exprs_subst(v@, r@, subs@),
    decreases v,
{
    let n = v.len();
    let ghost orig = v;
    let mut rest = v;
    let mut out: Vec<Expression> = Vec::new();
    let mut i: usize = 0;
    proof {
        assert(orig@.subrange(0, 0) =~= Seq::<Expression>::empty());
    }
    while i < n
        invariant
            n == orig.len(),
            0 <= i <= n,
            rest@ == orig@.subrange(i as int, n as int),
            exprs_subst(orig@.subrange(0, i as int), out@, subs@),
        decreases n - i,
    {
        let x = rest.remove(0);
        proof {
            assert(x == orig@[i as int]);
            assert(decreases_to!(orig => orig@));
            assert(decreases_to!(orig@ => orig@[i as int]));
            assert(rest@ =~= orig@.subrange(i + 1, n as int));
        }
        let ghost before = out@;
        out.push(substitute_in_expr(x, subs));
        proof {
            assert(orig@.subrange(0, i + 1).drop_last() =~= orig@.subrange(0, i as int));
            assert(out@.drop_last() =~= before);
        }
        i = i + 1;
    }
    proof {
        assert(orig@.subrange(0, n as int) =~= orig@);
    }
    out
}

#[verifier::rlimit(40)]
fn substitute_in_fields(v: Vec<(Identifier, Expression)>, subs: &Vec<(String, TypeExpression)>) -> (r: Vec<(Identifier, Expression)>)
    ensures
        named_exprs_subst(v@, r@, subs@),
    decreases v,
{
    let n = v.len();
    let ghost orig = v;
    let mut rest = v;
    let mut out: Vec<(Identifier, Expression)> = Vec::new();
    let mut i: usize = 0;
    proof {
        assert(orig@.subrange(0, 0) =~= Seq::<(Identifier, Expression)>::empty());
    }
    while i < n
        invariant
            n == orig.len(),
            0 <= i <= n,
            rest@ == orig@.subrange(i as int, n as int),
            named_exprs_subst(orig@.subrange(0, i as int), out@, subs@),
        decreases n - i,
    {
        let (name, x) = rest.remove(0);
        proof {
            assert(x == orig@[i as int].1);
            assert(name == orig@[i as int].0);
            assert(decreases_to!(orig => orig@));
            assert(decreases_to!(orig@ => orig@[i as int]));
            assert(decreases_to!(orig@[i as int] => orig@[i as int].1));
            assert(rest@ =~= orig@.subrange(i + 1, n as int));
        }
        let ghost before = out@;
        out.push((name, substitute_in_expr(x, subs)));
        proof {
            assert(orig@.subrange(0, i + 1).drop_last() =~= orig@.subrange(0, i as int));
            assert(out@.drop_last() =~= before);
        }
        i = i + 1;
    }
    proof {
        assert(orig@.subrange(0, n as int) =~= orig@);
    }
    out
}

fn substitute_in_opt_expr(e: Option<Expression>, subs: &Vec<(String, TypeExpression)>) -> (r: Option<Expression>)
    ensures
        opt_expr_subst(e, r, subs@),
    decreases e,
{
    match e {
        Some(x) => Some(substitute_in_expr(x, subs)),
        None => None,
    }
}

/// `r` is `s` with `subs` applied to every declared variable type and,
/// through `expr_subst`, to the casts of every expression it holds; the
/// same statements, names and positions otherwise.
pub open spec fn stmt_subst(s: Statement, r: Statement, subs: Seq<(String, TypeExpression)>) -> bool
    decreases s,
{
    proof { assert(decreases_to!(s => s.kind)); }
    &&& r.span == s.span
    &&& match s.kind {
        StatementKind::VariableDeclaration(d) => match r.kind {
            StatementKind::VariableDeclaration(rd) => rd.identifier == d.identifier && match (
                d.constant_type,
                rd.constant_type,
            ) {
                (Some(t), Some(rt)) => type_of(&rt) == substituted(type_of(&t), subs),
                (None, None) => true,
                _ => false,
            } && opt_expr_subst(d.expression, rd.expression, subs),
            _ => false,
        },
        StatementKind::Return(Some(values)) => match r.kind {
            StatementKind::Return(Some(r_values)) => {
                proof { assert(decreases_to!(values => values@)); }
                exprs_subst(values@, r_values@, subs)
            },
            _ => false,
        },
        StatementKind::ExpressionStatement(e) => match r.kind {
            StatementKind::ExpressionStatement(r_e) => expr_subst(e, r_e, subs),
            _ => false,
        },
        StatementKind::Assignment { identifier, expr } => match r.kind {
            StatementKind::Assignment { identifier: r_id, expr: r_expr } => r_id == identifier && expr_subst(expr, r_expr, subs),
            _ => false,
        },
        StatementKind::MultiAssignment { targets, values } => match r.kind {
            StatementKind::MultiAssignment { targets: r_targets, values: r_values } => {
                proof {
                    assert(decreases_to!(targets => targets@));
                    assert(decreases_to!(values => values@));
                }
                exprs_subst(targets@, r_targets@, subs) && exprs_subst(values@, r_values@, subs)
            },
            _ => false,
        },
        StatementKind::MultiVariableDeclaration { identifiers, values } => match r.kind {
            StatementKind::MultiVariableDeclaration { identifiers: r_ids, values: r_values } => {
                proof { assert(decreases_to!(values => values@)); }
                r_ids == identifiers && exprs_subst(values@, r_values@, subs)
            },
            _ => false,
        },
        StatementKind::FieldAssign { object, field, expr } => match r.kind {
            StatementKind::FieldAssign { object: r_obj, field: r_field, expr: r_expr } => r_obj == object && r_field
                == field && expr_subst(expr, r_expr, subs),
            _ => false,
        },
        StatementKind::DerefAssign { pointer, expr } => match r.kind {
            StatementKind::DerefAssign { pointer: r_ptr, expr: r_expr } => expr_subst(pointer, r_ptr, subs) && expr_subst(
                expr,
                r_expr,
                subs,
            ),
            _ => false,
        },
        StatementKind::IndexAssign { object, index, expr } => match r.kind {
            StatementKind::IndexAssign { object: r_obj, index: r_idx, expr: r_expr } => expr_subst(object, r_obj, subs)
                && expr_subst(index, r_idx, subs) && expr_subst(expr, r_expr, subs),
            _ => false,
        },
        StatementKind::If { condition, then_branch, else_branch } => match r.kind {
            StatementKind::If { condition: r_cond, then_branch: r_then, else_branch: r_else } => {
                proof { assert(decreases_to!(then_branch => then_branch@)); }
                &&& expr_subst(condition, r_cond, subs)
                &&& stmts_subst(then_branch@, r_then@, subs)
                &&& match (else_branch, r_else) {
                    (Some(a), Some(b)) => {
                        proof { assert(decreases_to!(a => a@)); }
                        stmts_subst(a@, b@, subs)
                    },
                    (None, None) => true,
                    _ => false,
                }
            },
            _ => false,
        },
        StatementKind::For { initializer, condition, post_operation, body } => match r.kind {
            StatementKind::For {
                initializer: r_init,
                condition: r_cond,
                post_operation: r_post,
                body: r_body,
            } => {
                proof { assert(decreases_to!(body => body@)); }
                &&& match (initializer, r_init) {
                    (Some(a), Some(b)) => stmt_subst(*a, *b, subs),
                    (None, None) => true,
                    _ => false,
                }
                &&& opt_expr_subst(condition, r_cond, subs)
                &&& match (post_operation, r_post) {
                    (Some(a), Some(b)) => stmt_subst(*a, *b, subs),
                    (None, None) => true,
                    _ => false,
                }
                &&& stmts_subst(body@, r_body@, subs)
            },
            _ => false,
        },
        StatementKind::Defer(inner) => match r.kind {
            StatementKind::Defer(r_inner) => stmt_subst(*inner, *r_inner, subs),
            _ => false,
        },
        StatementKind::Switch { subject, arms } => match r.kind {
            StatementKind::Switch { subject: r_subject, arms: r_arms } => {
                proof { assert(decreases_to!(arms => arms@)); }
                expr_subst(subject, r_subject, subs) && arms_subst(arms@, r_arms@, subs)
            },
            _ => false,
        },
        _ => r.kind == s.kind,
    }
}

/// `stmt_subst` element by element.
pub open spec fn stmts_subst(a: Seq<Statement>, b: Seq<Statement>, subs: Seq<(String, TypeExpression)>) -> bool
    decreases a,
{
    &&& a.len() == b.len()
    &&& a.len() > 0 ==> {
        proof {
            assert(decreases_to!(a => a.drop_last()));
            assert(decreases_to!(a => a[a.len() - 1]));
        }
        stmts_subst(a.drop_last(), b.drop_last(), subs) && stmt_subst(a[a.len() - 1], b[b.len() - 1], subs)
    }
}

/// The arms of a `switch`, each with its pattern kept and its body substituted.
pub open spec fn arms_subst(a: Seq<SwitchArm>, b: Seq<SwitchArm>, subs: Seq<(String, TypeExpression)>) -> bool
    decreases a,
{
    &&& a.len() == b.len()
    &&& a.len() > 0 ==> {
        proof {
            assert(decreases_to!(a => a.drop_last()));
            assert(decreases_to!(a => a[a.len() - 1]));
            assert(decreases_to!(a[a.len() - 1] => a[a.len() - 1].body));
            assert(decreases_to!(a[a.len() - 1].body => a[a.len() - 1].body@));
        }
        arms_subst(a.drop_last(), b.drop_last(), subs) && b[b.len() - 1].pattern == a[a.len() - 1].pattern
            && stmts_subst(a[a.len() - 1].body@, b[b.len() - 1].body@, subs)
    }
}

/// `s` with the type arguments substituted in its declarations and expressions.
pub fn substitute_in_stmt(s: Statement, subs: &Vec<(String, TypeExpression)>) -> (r: Statement)
    ensures
        stmt_subst(s, r, subs@),
    decreases s,
{
    let span = s.span;
    let kind = match s.kind {
        StatementKind::VariableDeclaration(d) => {
            let constant_type = match &d.constant_type {
                Some(t) => Some(substitute_type(t, subs)),
                None => None,
            };
            StatementKind::VariableDeclaration(VariableDeclaration {
                identifier: d.identifier,
                constant_type,
                expression: substitute_in_opt_expr(d.expression, subs),
            })
        },
        StatementKind::Return(Some(exprs)) => StatementKind::Return(Some(substitute_in_exprs(exprs, subs))),
        StatementKind::ExpressionStatement(e) => StatementKind::ExpressionStatement(substitute_in_expr(e, subs)),
        StatementKind::Assignment { identifier, expr } => StatementKind::Assignment { identifier, expr: substitute_in_expr(expr, subs) },
        StatementKind::MultiAssignment { targets, values } => StatementKind::MultiAssignment {
            targets: substitute_in_exprs(targets, subs),
            values: substitute_in_exprs(values, subs),
        },
        StatementKind::MultiVariableDeclaration { identifiers, values } => StatementKind::MultiVariableDeclaration {
            identifiers,
            values: substitute_in_exprs(values, subs),
        },
        StatementKind::FieldAssign { object, field, expr } => StatementKind::FieldAssign {
            object,
            field,
            expr: substitute_in_expr(expr, subs),
        },
        StatementKind::DerefAssign { pointer, expr } => StatementKind::DerefAssign {
            pointer: substitute_in_expr(pointer, subs),
            expr: substitute_in_expr(expr, subs),
        },
        StatementKind::IndexAssign { object, index, expr } => StatementKind::IndexAssign {
            object: substitute_in_expr(object, subs),
            index: substitute_in_expr(index, subs),
            expr: substitute_in_expr(expr, subs),
        },
        StatementKind::If { condition, then_branch, else_branch } => StatementKind::If {
            condition: substitute_in_expr(condition, subs),
            then_branch: substitute_in_stmts(then_branch, subs),
            else_branch: match else_branch {
                Some(b) => Some(substitute_in_stmts(b, subs)),
                None => None,
            },
        },
        StatementKind::For { initializer, condition, post_operation, body } => StatementKind::For {
            initializer: match initializer {
                Some(b) => Some(Box::new(substitute_in_stmt(*b, subs))),
                None => None,
            },
            condition: substitute_in_opt_expr(condition, subs),
            post_operation: match post_operation {
                Some(b) => Some(Box::new(substitute_in_stmt(*b, subs))),
                None => None,
            },
            body: substitute_in_stmts(body, subs),
        },
        StatementKind::Defer(inner) => StatementKind::Defer(Box::new(substitute_in_stmt(*inner, subs))),
        StatementKind::Switch { subject, arms } => StatementKind::Switch {
            subject: substitute_in_expr(subject, subs),
            arms: substitute_in_arms(arms, subs),
        },
        other => other,
    };
    Statement { kind, span }
}

/// Each statement of `v` with the type arguments substituted.
#[verifier::rlimit(40)]
pub fn substitute_in_stmts(v: Vec<Statement>, subs: &Vec<(String, TypeExpression)>) -> (r: Vec<Statement>)
    ensures
        stmts_subst(v@, r@, subs@),
    decreases v,
{
    let n = v.len();
    let ghost orig = v;
    let mut rest = v;
    let mut out: Vec<Statement> = Vec::new();
    let mut i: usize = 0;
    proof {
        assert(orig@.subrange(0, 0) =~= Seq::<Statement>::empty());
    }
    while i < n
        invariant
            n == orig.len(),
            0 <= i <= n,
            rest@ == orig@.subrange(i as int, n as int),
            stmts_subst(orig@.subrange(0, i as int), out@, subs@),
        decreases n - i,
    {
        let x = rest.remove(0);
        proof {
            assert(x == orig@[i as int]);
            assert(decreases_to!(orig => orig@));
            assert(decreases_to!(orig@ => orig@[i as int]));
            assert(rest@ =~= orig@.subrange(i + 1, n as int));
        }
        let ghost before = out@;
        out.push(substitute_in_stmt(x, subs));
        proof {
            assert(orig@.subrange(0, i + 1).drop_last() =~= orig@.subrange(0, i as int));
            assert(out@.drop_last() =~= before);
        }
        i = i + 1;
    }
    proof {
        assert(orig@.subrange(0, n as int) =~= orig@);
    }
    out
}

#[verifier::rlimit(40)]
fn substitute_in_arms(v: Vec<SwitchArm>, subs: &Vec<(String, TypeExpression)>) -> (r: Vec<SwitchArm>)
    ensures
        arms_subst(v@, r@, subs@),
    decreases v,
{
    let n = v.len();
    let ghost orig = v;
    let mut rest = v;
    let mut out: Vec<SwitchArm> = Vec::new();
    let mut i: usize = 0;
    proof {
        assert(orig@.subrange(0, 0) =~= Seq::<SwitchArm>::empty());
    }
    while i < n
        invariant
            n == orig.len(),
            0 <= i <= n,
            rest@ == orig@.subrange(i as int, n as int),
            arms_subst(orig@.subrange(0, i as int), out@, subs@),
        decreases n - i,
    {
        let x = rest.remove(0);
        proof {
            assert(x == orig@[i as int]);
            assert(decreases_to!(orig => orig@));
            assert(decreases_to!(orig@ => orig@[i as int]));
            assert(decreases_to!(orig@[i as int] => orig@[i as int].body));
            assert(rest@ =~= orig@.subrange(i + 1, n as int));
        }
        let ghost before = out@;
        out.push(SwitchArm { pattern: x.pattern, body: substitute_in_stmts(x.body, subs) });
        proof {
            assert(orig@.subrange(0, i + 1).drop_last() =~= orig@.subrange(0, i as int));
            assert(out@.drop_last() =~= before);
        }
        i = i + 1;
    }
    proof {
        assert(orig@.subrange(0, n as int) =~= orig@);
    }
    out
}

/// Some function of return type `t` is cached under `name` in `c`.
pub open spec fn cached_with(c: GenericCache, name: Seq<char>, t: TyV) -> bool {
    exists|f: TypedFunction| #[trigger] c.holds(name, f) && f.return_type@ == t
}

/// Instantiate the generic `template` for the type arguments among
/// `call_args`: the result is the instantiated function's name, under
/// which it is cached, and its return type.
pub fn instantiate_generic(
    template: &GenericFunctionTemplate,
    call_args: &Vec<Expression>,
    scope: &SymbolTable,
    cache: &mut GenericCache,
    fuel: usize,
) -> (r: Result<(String, Ty), AnalysisError>)
    requires
        old(cache).wf(),
        scope.scopes.len() > 0,
    ensures
        final(cache).wf(),
        r matches Ok((name, _)) ==> final(cache).has(name@) && name@ == instance_name(*template, call_args@),
        r matches Ok((name, t)) ==> cached_with(*final(cache), name@, t@),
        !type_arguments_given(*template, call_args@, scope.scopes@) ==> r is Err && *final(cache) == *old(cache),
        type_arguments_given(*template, call_args@, scope.scopes@) && old(cache).has(instance_name(*template, call_args@))
            ==> r is Ok && *final(cache) == *old(cache),
        forall|f: TypedFunction| type_arguments_given(*template, call_args@, scope.scopes@)
            && #[trigger] old(cache).holds(instance_name(*template, call_args@), f) ==> (r matches Ok((_, t)) && t@ == f.return_type@),
        fuel > 0 && type_arguments_given(*template, call_args@, scope.scopes@) && (match template.ast_decl.body {
            Some(b) => b.statements.len() == 0,
            None => true,
        }) ==> r is Ok,
    decreases fuel, 0nat, *template,
{
    let params = &template.ast_decl.signature.parameters;
    let mut subs: Vec<(String, TypeExpression)> = Vec::new();
    let mut mangled = template.name.value.clone();
    let mut k: usize = 0;
    proof {
        assert(template.comptime_params@.subrange(0, 0) =~= Seq::<usize>::empty());
        assert(mangled@ =~= template.name@ + instance_suffix(call_args@, template.comptime_params@.subrange(0, 0)));
    }
    while k < template.comptime_params.len()
        invariant
            0 <= k <= template.comptime_params.len(),
            mangled@ == template.name@ + instance_suffix(call_args@, template.comptime_params@.subrange(0, k as int)),
            forall|q: int| 0 <= q < k ==> type_argument_at(*template, call_args@, scope.scopes@, #[trigger] template.comptime_params@[q]),
        decreases template.comptime_params.len() - k,
    {
        let idx = template.comptime_params[k];
        if idx >= params.len() {
            return Err(AnalysisError::from_str("generic template refers to a missing parameter"));
        }
        let param_name = params[idx].parameter_name.value.clone();
        if idx >= call_args.len() {
            let mut m = str_to_string("generic call to '");
            push_str(&mut m, template.name.value.as_str());
            push_str(&mut m, "': missing argument for comptime param '");
            push_str(&mut m, param_name.as_str());
            push_str(&mut m, "'");
            return Err(AnalysisError::from_message(m));
        }
        let arg = &call_args[idx];
        let (type_expr, arg_name) = match &arg.kind {
            ExpressionKind::TypeValue(te) => (te.clone(), mangle_type_expr(te)),
            ExpressionKind::Identifier(id) => match scope.lookup(id) {
                Some(TypedSymbol::Type(_)) => (
                    TypeExpression::at(TypeExpressionKind::Identifier(id.clone()), arg.span),
                    id.value.clone(),
                ),
                _ => {
                    let mut m = str_to_string("generic call to '");
                    push_str(&mut m, template.name.value.as_str());
                    push_str(&mut m, "': argument for comptime param '");
                    push_str(&mut m, param_name.as_str());
                    push_str(&mut m, "' must be a type, got identifier '");
                    push_str(&mut m, id.value.as_str());
                    push_str(&mut m, "'");
                    return Err(AnalysisError::from_message(m));
                },
            },
            _ => {
                let mut m = str_to_string("generic call to '");
                push_str(&mut m, template.name.value.as_str());
                push_str(&mut m, "': argument for comptime param '");
                push_str(&mut m, param_name.as_str());
                push_str(&mut m, "' must be a type expression");
                return Err(AnalysisError::from_message(m));
            },
        };
        push_str(&mut mangled, "__");
        push_str(&mut mangled, arg_name.as_str());
        proof {
            assert(type_argument_at(*template, call_args@, scope.scopes@, idx));
            let idxs = template.comptime_params@;
            assert(idxs.subrange(0, k + 1).drop_last() =~= idxs.subrange(0, k as int));
            assert(mangled@ =~= template.name@ + instance_suffix(call_args@, idxs.subrange(0, k + 1)));
        }
        subs.push((param_name, type_expr));
        k = k + 1;
    }
    if template.comptime_params.len() == 0 {
        push_str(&mut mangled, "__");
    }
    proof {
        assert(template.comptime_params@.subrange(0, k as int) =~= template.comptime_params@);
        assert(mangled@ == instance_name(*template, call_args@));
        assert(type_arguments_given(*template, call_args@, scope.scopes@));
    }
    match cache.get(mangled.as_str()) {
        Some(cached) => {
            proof {
                cache.lemma_holds_has(mangled@, *cached);
                assert forall|f: TypedFunction| #[trigger] cache.holds(mangled@, f) implies f == *cached by {
                    cache.lemma_holds_unique(mangled@, f, *cached);
                }
            }
            let t = cached.return_type.copy();
            proof {
                assert(cache.holds(mangled@, *cached) && cached.return_type@ == t@);
                assert(cached_with(*cache, mangled@, t@));
            }
            return Ok((mangled, t));
        },
        None => {
            proof {
                assert forall|f: TypedFunction| !#[trigger] cache.holds(mangled@, f) by {
                    if cache.holds(mangled@, f) {
                        cache.lemma_holds_has(mangled@, f);
                    }
                }
            }
        },
    }
    let decl = template.ast_decl.clone();
    let mut parameters: Vec<FunctionParameter> = Vec::new();
    let mut i: usize = 0;
    while i < decl.signature.parameters.len()
        decreases decl.signature.parameters.len() - i,
    {
        let mut is_comptime = false;
        let mut j: usize = 0;
        while j < template.comptime_params.len()
            decreases template.comptime_params.len() - j,
        {
            if template.comptime_params[j] == i {
                is_comptime = true;
            }
            j = j + 1;
        }
        if !is_comptime {
            parameters.push(FunctionParameter {
                parameter_name: decl.signature.parameters[i].parameter_name.clone(),
                parameter_type: substitute_type(&decl.signature.parameters[i].parameter_type, &subs),
            });
        }
        i = i + 1;
    }
    let return_type = match &decl.signature.return_type {
        Some(rt) => Some(substitute_type(rt, &subs)),
        None => None,
    };
    let body = match decl.body {
        Some(b) => Some(crate::frontend::ast::FunctionBody { statements: substitute_in_stmts(b.statements, &subs) }),
        None => None,
    };
    let substituted = FunctionDeclaration {
        signature: crate::frontend::ast::FunctionSignature {
            name: Identifier { value: mangled.clone() },
            parameters,
            return_type,
        },
        body,
        is_extern: decl.is_extern,
        is_variadic: decl.is_variadic,
    };
    let (placeholder_params, placeholder_ret) = signature_to_typed(&substituted);
    cache.insert(mangled.clone(), TypedFunction {
        name: Identifier { value: mangled.clone() },
        params: placeholder_params,
        return_type: placeholder_ret,
        body: Vec::new(),
        is_extern: substituted.is_extern,
        is_variadic: substituted.is_variadic,
    });
    if fuel == 0 {
        return Err(AnalysisError::from_str("generic instantiation nested too deeply"));
    }
    let mut func_scope = scope.clone();
    let typed_func = func_to_typed(substituted, &mut func_scope, cache, fuel - 1)?;
    let ret = typed_func.return_type.copy();
    let ghost tf = typed_func;
    let key = mangled.clone();
    cache.insert(key, typed_func);
    proof {
        cache.lemma_holds_has(mangled@, tf);
        assert(cache.holds(mangled@, tf) && tf.return_type@ == ret@);
        assert(cached_with(*cache, mangled@, ret@));
    }
    Ok((mangled, ret))
}

} // verus!
