//! Semantic types of syntax type expressions, alias resolution and the
//! coercion rule shared by every assignment-like construct.
use vstd::prelude::*;

use crate::frontend::analyze::functions::{params_view, resolve_function_decl, return_type_of, runtime_params};
use crate::frontend::analyze::generics::generic_decl;
use crate::frontend::ast::{DeclarationNode, EnumVariant, Field, TypeExpression, TypeExpressionKind};
use crate::frontend::tokens::{BuiltinType, Identifier};
use crate::frontend::typed_ast::{
    Scope, SymbolTable, Ty, TyV, TypedEnumVariant, TypedSymbol, VariantV, fields_view, lookup_in,
    lemma_fields_view, lemma_tys_view, lemma_variants_view, tys_view, variants_view,
};

verus! {

// ---------------------------------------------------------------------------
// The semantic type a syntax type expression denotes
// ---------------------------------------------------------------------------

/// The semantic type written by `te`. Enum variants are numbered by their
/// position.
pub open spec fn type_of(te: &TypeExpression) -> TyV
    decreases te,
{
    match &te.kind {
        TypeExpressionKind::TypeKeyword => TyV::Type,
        TypeExpressionKind::Builtin(b) => TyV::Builtin(*b),
        TypeExpressionKind::Identifier(id) => TyV::Identifier(id@),
        TypeExpressionKind::Struct { fields } => {
            proof { assert(decreases_to!(fields => fields@)); }
            TyV::Struct { fields: field_types_of(fields@) }
        },
        TypeExpressionKind::Enum { variants } => {
            proof { assert(decreases_to!(variants => variants@)); }
            TyV::Enum { variants: variant_types_of(variants@) }
        },
        TypeExpressionKind::Function { argument_types, return_type } => {
            proof { assert(decreases_to!(argument_types => argument_types@)); }
            TyV::Function { argument_types: types_of(argument_types@), return_type: Box::new(type_of(&**return_type)) }
        },
        TypeExpressionKind::Tuple { elements } => {
            proof { assert(decreases_to!(elements => elements@)); }
            TyV::Tuple { elements: types_of(elements@) }
        },
        TypeExpressionKind::Pointer { pointed_type } => TyV::Pointer(Box::new(type_of(&**pointed_type))),
        TypeExpressionKind::Array { element_type, size } => TyV::Array {
            element_type: Box::new(type_of(&**element_type)),
            size: *size,
        },
        TypeExpressionKind::Slice { element_type } => TyV::Slice(Box::new(type_of(&**element_type))),
        TypeExpressionKind::QualifiedIdentifier { module, name } => TyV::QualifiedIdentifier {
            module: module@,
            name: name@,
        },
    }
}

pub open spec fn types_of(s: Seq<TypeExpression>) -> Seq<TyV>
    decreases s,
{
    if s.len() == 0 {
        Seq::empty()
    } else {
        proof {
            assert(decreases_to!(s => s.drop_last()));
            assert(decreases_to!(s => s[s.len() - 1]));
        }
        types_of(s.drop_last()).push(type_of(&s[s.len() - 1]))
    }
}

pub open spec fn field_types_of(s: Seq<Field>) -> Seq<(Seq<char>, TyV)>
    decreases s,
{
    if s.len() == 0 {
        Seq::empty()
    } else {
        proof {
            assert(decreases_to!(s => s.drop_last()));
            assert(decreases_to!(s => s[s.len() - 1]));
            assert(decreases_to!(s[s.len() - 1] => s[s.len() - 1].type_id));
        }
        field_types_of(s.drop_last()).push((s[s.len() - 1].label@, type_of(&s[s.len() - 1].type_id)))
    }
}

pub open spec fn variant_types_of(s: Seq<EnumVariant>) -> Seq<VariantV>
    decreases s,
{
    if s.len() == 0 {
        Seq::empty()
    } else {
        let v = s[s.len() - 1];
        proof {
            assert(decreases_to!(s => s.drop_last()));
            assert(decreases_to!(s => s[s.len() - 1]));
            assert(decreases_to!(s[s.len() - 1] => s[s.len() - 1].payload));
        }
        variant_types_of(s.drop_last()).push(VariantV {
            name: v.name@,
            discriminant: (s.len() - 1) as u32,
            payload: match &s[s.len() - 1].payload {
                Some(fs) => {
                    proof { assert(decreases_to!(fs => fs@)); }
                    Some(field_types_of(fs@))
                },
                None => None,
            },
        })
    }
}

/// The semantic type of a syntax type expression.
pub fn map_type(te: &TypeExpression) -> (r: Ty)
    ensures
        r@ == type_of(te),
    decreases te, 0nat,
{
    match &te.kind {
        TypeExpressionKind::TypeKeyword => Ty::Type,
        TypeExpressionKind::Builtin(b) => Ty::Builtin(*b),
        TypeExpressionKind::Identifier(id) => Ty::Identifier(id.copy()),
        TypeExpressionKind::Struct { fields } => {
            proof { assert(decreases_to!(fields => fields@)); }
            Ty::Struct { fields: map_fields(fields) }
        },
        TypeExpressionKind::Enum { variants } => {
            proof { assert(decreases_to!(variants => variants@)); }
            Ty::Enum { variants: map_variants(variants) }
        },
        TypeExpressionKind::Function { argument_types, return_type } => {
            proof { assert(decreases_to!(argument_types => argument_types@)); }
            Ty::Function { argument_types: map_types(argument_types), return_type: Box::new(map_type(&**return_type)) }
        },
        TypeExpressionKind::Tuple { elements } => {
            proof { assert(decreases_to!(elements => elements@)); }
            Ty::Tuple { elements: map_types(elements) }
        },
        TypeExpressionKind::Pointer { pointed_type } => Ty::Pointer(Box::new(map_type(&**pointed_type))),
        TypeExpressionKind::Array { element_type, size } => Ty::Array {
            element_type: Box::new(map_type(&**element_type)),
            size: *size,
        },
        TypeExpressionKind::Slice { element_type } => Ty::Slice(Box::new(map_type(&**element_type))),
        TypeExpressionKind::QualifiedIdentifier { module, name } => Ty::QualifiedIdentifier {
            module: module.value.clone(),
            name: name.copy(),
        },
    }
}

pub proof fn lemma_types_of(s: Seq<TypeExpression>)
    ensures
        types_of(s).len() == s.len(),
        forall|i: int| 0 <= i < s.len() ==> #[trigger] types_of(s)[i] == type_of(&s[i]),
    decreases s.len(),
{
    if s.len() > 0 {
        lemma_types_of(s.drop_last());
    }
}

pub proof fn lemma_field_types_of(s: Seq<Field>)
    ensures
        field_types_of(s).len() == s.len(),
        forall|i: int| 0 <= i < s.len() ==> #[trigger] field_types_of(s)[i] == (s[i].label@, type_of(&s[i].type_id)),
    decreases s.len(),
{
    if s.len() > 0 {
        lemma_field_types_of(s.drop_last());
    }
}

pub proof fn lemma_variant_types_of(s: Seq<EnumVariant>)
    ensures
        variant_types_of(s).len() == s.len(),
        forall|i: int| 0 <= i < s.len() ==> #[trigger] variant_types_of(s)[i] == (VariantV {
            name: s[i].name@,
            discriminant: i as u32,
            payload: match s[i].payload {
                Some(fs) => Some(field_types_of(fs@)),
                None => None,
            },
        }),
    decreases s.len(),
{
    if s.len() > 0 {
        lemma_variant_types_of(s.drop_last());
    }
}

fn map_types(v: &Vec<TypeExpression>) -> (r: Vec<Ty>)
    ensures
        tys_view(r@) == types_of(v@),
    decreases v@, 0nat,
{
    proof { lemma_types_of(v@); }
    let mut out: Vec<Ty> = Vec::new();
    let mut i: usize = 0;
    while i < v.len()
        invariant
            0 <= i <= v.len(),
            out.len() == i,
            forall|j: int| 0 <= j < i ==> out@[j]@ == type_of(&v@[j]),
        decreases v.len() - i,
    {
        proof { assert(decreases_to!(v@ => v@[i as int])); }
        out.push(map_type(&v[i]));
        i = i + 1;
    }
    proof {
        lemma_tys_view(out@);
        assert(tys_view(out@) =~= types_of(v@));
    }
    out
}

fn map_fields(v: &Vec<Field>) -> (r: Vec<(String, Ty)>)
    ensures
        fields_view(r@) == field_types_of(v@),
    decreases v@, 0nat,
{
    proof { lemma_field_types_of(v@); }
    let mut out: Vec<(String, Ty)> = Vec::new();
    let mut i: usize = 0;
    while i < v.len()
        invariant
            0 <= i <= v.len(),
            out.len() == i,
            forall|j: int| 0 <= j < i ==> out@[j].0@ == v@[j].label@ && out@[j].1@ == type_of(&v@[j].type_id),
        decreases v.len() - i,
    {
        proof {
            assert(decreases_to!(v@ => v@[i as int]));
            assert(decreases_to!(v@[i as int] => v@[i as int].type_id));
        }
        out.push((v[i].label.value.clone(), map_type(&v[i].type_id)));
        i = i + 1;
    }
    proof {
        lemma_fields_view(out@);
        assert(fields_view(out@) =~= field_types_of(v@));
    }
    out
}

fn map_variants(v: &Vec<EnumVariant>) -> (r: Vec<TypedEnumVariant>)
    ensures
        variants_view(r@) == variant_types_of(v@),
    decreases v@, 0nat,
{
    proof { lemma_variant_types_of(v@); }
    let mut out: Vec<TypedEnumVariant> = Vec::new();
    let mut i: usize = 0;
    while i < v.len()
        invariant
            0 <= i <= v.len(),
            out.len() == i,
            forall|j: int| 0 <= j < i ==> #[trigger] out@[j]@ == (VariantV {
                name: v@[j].name@,
                discriminant: j as u32,
                payload: match v@[j].payload {
                    Some(fs) => Some(field_types_of(fs@)),
                    None => None,
                },
            }),
        decreases v.len() - i,
    {
        proof { assert(decreases_to!(v@ => v@[i as int])); }
        let payload = match &v[i].payload {
            Some(fs) => {
                proof {
                    assert(decreases_to!(v@[i as int] => v@[i as int].payload));
                    assert(decreases_to!(*fs => fs@));
                }
                Some(map_fields(fs))
            },
            None => None,
        };
        #[verifier::truncate]
        let discriminant: u32 = i as u32;
        out.push(TypedEnumVariant { name: v[i].name.value.clone(), discriminant, payload });
        i = i + 1;
    }
    proof {
        lemma_variants_view(out@);
        lemma_variant_types_of(v@);
        assert forall|j: int| 0 <= j < v.len() implies variants_view(out@)[j] == variant_types_of(v@)[j] by {
            assert(out@[j]@ == variant_types_of(v@)[j]);
        }
        assert(variants_view(out@) =~= variant_types_of(v@));
    }
    out
}

// ---------------------------------------------------------------------------
// Classes of builtin types
// ---------------------------------------------------------------------------

pub open spec fn integer_builtin(b: BuiltinType) -> bool {
    match b {
        BuiltinType::Int1 | BuiltinType::Int2 | BuiltinType::Int4 | BuiltinType::Int8 | BuiltinType::Int16
        | BuiltinType::UInt1 | BuiltinType::UInt2 | BuiltinType::UInt4 | BuiltinType::UInt8
        | BuiltinType::UInt16 | BuiltinType::Char => true,
        _ => false,
    }
}

pub open spec fn float_builtin(b: BuiltinType) -> bool {
    match b {
        BuiltinType::Float2 | BuiltinType::Float4 | BuiltinType::Float8 | BuiltinType::Float16 => true,
        _ => false,
    }
}

pub open spec fn integer_type(t: TyV) -> bool {
    t matches TyV::Builtin(b) && integer_builtin(b)
}

pub open spec fn float_type(t: TyV) -> bool {
    t matches TyV::Builtin(b) && float_builtin(b)
}

pub open spec fn numeric_type(t: TyV) -> bool {
    integer_type(t) || float_type(t)
}

pub fn is_integer_builtin(b: BuiltinType) -> (r: bool)
    ensures
        r == integer_builtin(b),
{
    match b {
        BuiltinType::Int1 | BuiltinType::Int2 | BuiltinType::Int4 | BuiltinType::Int8 | BuiltinType::Int16
        | BuiltinType::UInt1 | BuiltinType::UInt2 | BuiltinType::UInt4 | BuiltinType::UInt8
        | BuiltinType::UInt16 | BuiltinType::Char => true,
        _ => false,
    }
}

pub fn is_float_builtin(b: BuiltinType) -> (r: bool)
    ensures
        r == float_builtin(b),
{
    match b {
        BuiltinType::Float2 | BuiltinType::Float4 | BuiltinType::Float8 | BuiltinType::Float16 => true,
        _ => false,
    }
}

pub fn is_integer_type(ty: &Ty) -> (r: bool)
    ensures
        r == integer_type(ty@),
{
    match ty {
        Ty::Builtin(b) => is_integer_builtin(*b),
        _ => false,
    }
}

pub fn is_float_type(ty: &Ty) -> (r: bool)
    ensures
        r == float_type(ty@),
{
    match ty {
        Ty::Builtin(b) => is_float_builtin(*b),
        _ => false,
    }
}

pub fn is_numeric_type(ty: &Ty) -> (r: bool)
    ensures
        r == numeric_type(ty@),
{
    is_integer_type(ty) || is_float_type(ty)
}

pub fn is_boolean_type(ty: &Ty) -> (r: bool)
    ensures
        r == (ty@ == TyV::Builtin(BuiltinType::Boolean)),
{
    match ty {
        Ty::Builtin(BuiltinType::Boolean) => true,
        _ => false,
    }
}

// ---------------------------------------------------------------------------
// Named types
// ---------------------------------------------------------------------------

/// The number of symbols bound in `scopes`.
pub open spec fn symbol_total(scopes: Seq<Scope>) -> nat
    decreases scopes.len(),
{
    if scopes.len() == 0 {
        0
    } else {
        symbol_total(scopes.drop_last()) + scopes.last().symbols@.len()
    }
}

/// How many alias steps are followed: a chain through distinct names is never
/// longer than the number of bound symbols, so only a cycle of aliases is cut.
pub open spec fn alias_fuel(scopes: Seq<Scope>) -> nat {
    if symbol_total(scopes) < usize::MAX {
        symbol_total(scopes)
    } else {
        usize::MAX as nat
    }
}

/// Follow `Identifier` names bound to types, at most `fuel` steps.
pub open spec fn resolve_alias(scopes: Seq<Scope>, t: TyV, fuel: nat) -> TyV
    decreases fuel,
{
    if fuel == 0 {
        t
    } else {
        match t {
            TyV::Identifier(name) => match lookup_in(scopes, name) {
                Some(TypedSymbol::Type(inner)) => resolve_alias(scopes, inner@, (fuel - 1) as nat),
                _ => t,
            },
            _ => t,
        }
    }
}

/// The structural type `t` names in `scopes`.
pub open spec fn resolved(scopes: Seq<Scope>, t: TyV) -> TyV {
    resolve_alias(scopes, t, alias_fuel(scopes))
}

/// The fields of the struct `t` is or names, following at most `fuel` names.
pub open spec fn struct_fields_of(scopes: Seq<Scope>, t: TyV, fuel: nat) -> Option<Seq<(Seq<char>, TyV)>>
    decreases fuel,
{
    match t {
        TyV::Struct { fields } => Some(fields),
        TyV::Identifier(name) => if fuel == 0 {
            None
        } else {
            match lookup_in(scopes, name) {
                Some(TypedSymbol::Type(inner)) => struct_fields_of(scopes, inner@, (fuel - 1) as nat),
                _ => None,
            }
        },
        _ => None,
    }
}

/// `min(symbol_total, usize::MAX)`, computed.
pub fn alias_step_limit(scope: &SymbolTable) -> (n: usize)
    ensures
        n == alias_fuel(scope.scopes@),
{
    let mut total: usize = 0;
    let mut k: usize = 0;
    while k < scope.scopes.len()
        invariant
            0 <= k <= scope.scopes.len(),
            total == (if symbol_total(scope.scopes@.subrange(0, k as int)) < usize::MAX {
                symbol_total(scope.scopes@.subrange(0, k as int))
            } else {
                usize::MAX as nat
            }),
        decreases scope.scopes.len() - k,
    {
        proof {
            assert(scope.scopes@.subrange(0, k + 1).drop_last() =~= scope.scopes@.subrange(0, k as int));
        }
        let len = scope.scopes[k].symbols.len();
        if total >= usize::MAX - len {
            total = usize::MAX;
        } else {
            total = total + len;
        }
        k = k + 1;
    }
    proof {
        assert(scope.scopes@.subrange(0, k as int) =~= scope.scopes@);
    }
    total
}

/// The type an alias chain ends in (`ty` itself when it names no type).
pub fn resolve_type_alias(ty: &Ty, scope: &SymbolTable) -> (r: Ty)
    ensures
        r@ == resolved(scope.scopes@, ty@),
{
    let limit = alias_step_limit(scope);
    let mut current = ty.copy();
    let mut steps: usize = 0;
    while steps < limit
        invariant
            steps <= limit,
            limit == alias_fuel(scope.scopes@),
            resolve_alias(scope.scopes@, current@, (limit - steps) as nat) == resolved(scope.scopes@, ty@),
        decreases limit - steps,
    {
        let next = match &current {
            Ty::Identifier(id) => match scope.lookup(id) {
                Some(TypedSymbol::Type(inner)) => inner.copy(),
                _ => {
                    return current;
                },
            },
            _ => {
                return current;
            },
        };
        current = next;
        steps = steps + 1;
    }
    current
}

/// The fields of the struct type `ty` is or names.
pub fn resolve_struct_fields(ty: &Ty, scope: &SymbolTable) -> (r: Option<Vec<(String, Ty)>>)
    ensures
        match r {
            Some(fs) => struct_fields_of(scope.scopes@, ty@, alias_fuel(scope.scopes@)) == Some(fields_view(fs@)),
            None => struct_fields_of(scope.scopes@, ty@, alias_fuel(scope.scopes@)) is None,
        },
{
    let limit = alias_step_limit(scope);
    let mut current = ty.copy();
    let mut steps: usize = 0;
    loop
        invariant
            steps <= limit,
            limit == alias_fuel(scope.scopes@),
            struct_fields_of(scope.scopes@, current@, (limit - steps) as nat) == struct_fields_of(
                scope.scopes@,
                ty@,
                limit as nat,
            ),
        decreases limit - steps,
    {
        let next = match &current {
            Ty::Struct { fields } => {
                return Some(crate::frontend::typed_ast::copy_fields(fields));
            },
            Ty::Identifier(id) => {
                if steps == limit {
                    return None;
                }
                match scope.lookup(id) {
                    Some(TypedSymbol::Type(inner)) => inner.copy(),
                    _ => {
                        return None;
                    },
                }
            },
            _ => {
                return None;
            },
        };
        current = next;
        steps = steps + 1;
    }
}

// ---------------------------------------------------------------------------
// Declaring a top-level item's signature
// ---------------------------------------------------------------------------

/// What declaring `d` does to the innermost scope: an import changes nothing,
/// a function declares its signature (or its template, when generic), and a
/// type declaration binds its name to the type it denotes.
pub open spec fn declared(before: SymbolTable, after: SymbolTable, d: DeclarationNode) -> bool {
    &&& after.scopes.len() == before.scopes.len()
    &&& after.scopes@.drop_last() == before.scopes@.drop_last()
    &&& after.modules == before.modules
    &&& match d {
        DeclarationNode::ImportDeclaration(_) => after == before,
        DeclarationNode::FunctionDeclaration(f) => {
            &&& after.scopes@.last().symbols@.drop_last() == before.scopes@.last().symbols@
            &&& after.scopes@.last().symbols.len() == before.scopes@.last().symbols.len() + 1
            &&& after.scopes@.last().symbols@.last().0@ == f.signature.name@
            &&& generic_decl(f) ==> (lookup_in(after.scopes@, f.signature.name@) matches Some(
                TypedSymbol::GenericFunction(t),
            ) && t.name == f.signature.name)
            &&& !generic_decl(f) ==> (lookup_in(after.scopes@, f.signature.name@) matches Some(
                TypedSymbol::Function(t),
            ) && t.name == f.signature.name && params_view(t.params@) == runtime_params(
                f.signature.parameters@,
            ) && t.return_type@ == return_type_of(f) && t.body.len() == 0 && t.is_extern == f.is_extern
                && t.is_variadic == f.is_variadic)
        },
        DeclarationNode::TypeDeclaration(td) => {
            &&& after.scopes@.last().symbols@.len() == before.scopes@.last().symbols@.len() + 1
            &&& after.scopes@.last().symbols@.drop_last() == before.scopes@.last().symbols@
            &&& after.scopes@.last().symbols@.last().0 == td.name
            &&& after.scopes@.last().symbols@.last().1 matches TypedSymbol::Type(t) && t@ == type_of(
                &td.expression,
            )
            &&& lookup_in(after.scopes@, td.name@) == Some(after.scopes@.last().symbols@.last().1)
        },
    }
}

/// Declare the signature of a top-level item in the innermost scope, so
/// that declarations later in the file (and bodies analyzed afterwards) can
/// refer to it.
pub fn resolve_declaration(d: &DeclarationNode, scope: &mut SymbolTable)
    requires
        old(scope).scopes.len() > 0,
    ensures
        declared(*old(scope), *final(scope), *d),
{
    match d {
        DeclarationNode::ImportDeclaration(_) => {},
        DeclarationNode::FunctionDeclaration(f) => {
            resolve_function_decl(f, scope);
        },
        DeclarationNode::TypeDeclaration(td) => {
            let ty = map_type(&td.expression);
            let ghost before = old(scope).scopes@.last().symbols@;
            scope.insert(td.name.clone(), TypedSymbol::Type(ty));
            assert(scope.scopes@.last().symbols@.drop_last() =~= before);
        },
    }
}

} // verus!
