//! Byte layout of semantic types, following the target's aggregate layout
//! rules: each field at its natural alignment, aggregates padded to their
//! largest field alignment. Enums lower to `{ i32 tag, [N x i64] payload }`,
//! so the payload region must be large enough for every variant.
use vstd::prelude::*;

use crate::frontend::analyze::types::{alias_step_limit, symbol_total};
use crate::frontend::tokens::{BuiltinType, builtin_spelling};
use crate::frontend::typed_ast::{
    Scope, SymbolTable, Ty, TyV, TypedEnumVariant, TypedModule, TypedSymbol, copy_tys, find_last, find_last_index, lookup_in,
    module_index, tys_view,
};
use crate::backend::lowering::error::LowerError;
use crate::frontend::analyze::coerce::{describe_type, type_text};
use crate::text::str_to_string;

verus! {

// ---------------------------------------------------------------------------
// The layout rules
// ---------------------------------------------------------------------------

/// A byte count the target can address.
pub open spec fn fits(x: nat) -> bool {
    x <= usize::MAX
}

/// `n` rounded up to a multiple of `align` (alignments of 0 and 1 leave it).
pub open spec fn round_up_spec(n: nat, align: nat) -> nat {
    if align <= 1 {
        n
    } else {
        ((n + align - 1) / (align as int) * align) as nat
    }
}

/// The size in bytes of a builtin type.
pub open spec fn builtin_size(b: BuiltinType) -> nat {
    match b {
        BuiltinType::Boolean | BuiltinType::Char | BuiltinType::UInt1 | BuiltinType::Int1 | BuiltinType::Never => 1,
        BuiltinType::UInt2 | BuiltinType::Int2 | BuiltinType::Float2 => 2,
        BuiltinType::UInt4 | BuiltinType::Int4 | BuiltinType::Float4 => 4,
        BuiltinType::UInt8 | BuiltinType::Int8 | BuiltinType::Float8 => 8,
        BuiltinType::UInt16 | BuiltinType::Int16 | BuiltinType::Float16 => 16,
        BuiltinType::String => 8,
        BuiltinType::Void => 0,
    }
}

/// Place one more field of layout `field` after `offset` bytes of fields
/// with alignment `align`: the new end offset and alignment.
pub open spec fn place(offset: nat, align: nat, field: Option<(nat, nat)>) -> Option<(nat, nat)> {
    match field {
        Some((size, a)) => {
            let start = round_up_spec(offset, a);
            if fits(start) && fits(start + size) {
                Some(((start + size) as nat, if a > align { a } else { align }))
            } else {
                None
            }
        },
        None => None,
    }
}

/// The padded size and alignment of fields laid out up to `(offset, align)`.
pub open spec fn aggregate(acc: Option<(nat, nat)>) -> Option<(nat, nat)> {
    match acc {
        Some((offset, align)) => if fits(round_up_spec(offset, align)) {
            Some((round_up_spec(offset, align), align))
        } else {
            None
        },
        None => None,
    }
}

/// An enum with the given largest payload: a bare 4-byte tag when no variant
/// carries data, else an 8-byte tag slot and the payload in 8-byte words.
pub open spec fn enum_layout(payload: nat) -> Option<(nat, nat)> {
    if payload == 0 {
        Some((4, 4))
    } else {
        let words = (payload + 7) / 8;
        if fits(8 + words * 8) {
            Some(((8 + words * 8) as nat, 8))
        } else {
            None
        }
    }
}

/// The module registered under `module` in `modules` (the latest one).
pub open spec fn module_named(modules: Seq<(String, TypedModule)>, module: Seq<char>) -> Option<TypedModule> {
    match module_index(modules, module) {
        Some(i) => Some(modules[i].1),
        None => None,
    }
}

/// The size and alignment in bytes of `t`, following at most `fuel` type
/// names along any path; `None` where `fuel` runs out or a size is beyond
/// what the target can address. A name that is not a type lays out as an
/// empty, byte-aligned value.
pub open spec fn layout(scopes: Seq<Scope>, modules: Seq<(String, TypedModule)>, t: Ty, fuel: nat) -> Option<(nat, nat)>
    decreases fuel, t,
{
    match t {
        Ty::Builtin(b) => Some((builtin_size(b), if builtin_size(b) > 1 { builtin_size(b) } else { 1 })),
        Ty::Pointer(_) => Some((8, 8)),
        Ty::Function { .. } => Some((8, 8)),
        Ty::Slice(_) => Some((16, 8)),
        Ty::Array { element_type, size } => match layout(scopes, modules, *element_type, fuel) {
            Some((s, a)) => {
                let stride = round_up_spec(s, a);
                if fits(stride) && fits(size as nat) && fits(stride * (size as nat)) {
                    Some((stride * (size as nat), a))
                } else {
                    None
                }
            },
            None => None,
        },
        Ty::Struct { fields } => {
            proof { assert(decreases_to!(fields => fields@)); }
            aggregate(fields_offset(scopes, modules, fields@, fuel))
        },
        Ty::Tuple { elements } => {
            proof { assert(decreases_to!(elements => elements@)); }
            aggregate(tys_offset(scopes, modules, elements@, fuel))
        },
        Ty::Enum { variants } => {
            proof { assert(decreases_to!(variants => variants@)); }
            match max_payload(scopes, modules, variants@, fuel) {
                Some(p) => enum_layout(p),
                None => None,
            }
        },
        Ty::Identifier(id) => match lookup_in(scopes, id@) {
            Some(TypedSymbol::Type(inner)) => if fuel == 0 {
                None
            } else {
                layout(scopes, modules, inner, (fuel - 1) as nat)
            },
            _ => None,
        },
        Ty::QualifiedIdentifier { module, name } => match module_named(modules, module@) {
            Some(m) => match find_last(m.exports@, name@) {
                Some(i) => match m.exports@[i].1 {
                    TypedSymbol::Type(inner) => if fuel == 0 {
                        None
                    } else {
                        layout(scopes, modules, inner, (fuel - 1) as nat)
                    },
                    _ => None,
                },
                None => None,
            },
            None => None,
        },
        Ty::Type => Some((0, 1)),
    }
}

/// The end offset and alignment after laying out the named fields `s` in order.
pub open spec fn fields_offset(scopes: Seq<Scope>, modules: Seq<(String, TypedModule)>, s: Seq<(String, Ty)>, fuel: nat) -> Option<(nat, nat)>
    decreases fuel, s,
{
    if s.len() == 0 {
        Some((0, 1))
    } else {
        proof {
            assert(decreases_to!(s => s.drop_last()));
            assert(decreases_to!(s => s[s.len() - 1]));
            assert(decreases_to!(s[s.len() - 1] => s[s.len() - 1].1));
        }
        match fields_offset(scopes, modules, s.drop_last(), fuel) {
            Some((offset, align)) => place(offset, align, layout(scopes, modules, s[s.len() - 1].1, fuel)),
            None => None,
        }
    }
}

/// The end offset and alignment after laying out the types `s` in order.
pub open spec fn tys_offset(scopes: Seq<Scope>, modules: Seq<(String, TypedModule)>, s: Seq<Ty>, fuel: nat) -> Option<(nat, nat)>
    decreases fuel, s,
{
    if s.len() == 0 {
        Some((0, 1))
    } else {
        proof {
            assert(decreases_to!(s => s.drop_last()));
            assert(decreases_to!(s => s[s.len() - 1]));
        }
        match tys_offset(scopes, modules, s.drop_last(), fuel) {
            Some((offset, align)) => place(offset, align, layout(scopes, modules, s[s.len() - 1], fuel)),
            None => None,
        }
    }
}

/// The largest padded payload among the variants `s` (0 when none carries one).
pub open spec fn max_payload(scopes: Seq<Scope>, modules: Seq<(String, TypedModule)>, s: Seq<TypedEnumVariant>, fuel: nat) -> Option<nat>
    decreases fuel, s,
{
    if s.len() == 0 {
        Some(0)
    } else {
        proof {
            assert(decreases_to!(s => s.drop_last()));
            assert(decreases_to!(s => s[s.len() - 1]));
            assert(decreases_to!(s[s.len() - 1] => s[s.len() - 1].payload));
        }
        match max_payload(scopes, modules, s.drop_last(), fuel) {
            Some(m) => match s[s.len() - 1].payload {
                Some(fs) => {
                    proof { assert(decreases_to!(fs => fs@)); }
                    match aggregate(fields_offset(scopes, modules, fs@, fuel)) {
                        Some((size, _)) => Some(if size > m { size } else { m }),
                        None => None,
                    }
                },
                None => Some(m),
            },
            None => None,
        }
    }
}

/// The number of symbols exported by the modules in `modules`.
pub open spec fn export_total(modules: Seq<(String, TypedModule)>) -> nat
    decreases modules.len(),
{
    if modules.len() == 0 {
        0
    } else {
        export_total(modules.drop_last()) + modules.last().1.exports@.len()
    }
}

/// How many type names a layout follows along one path: a path through
/// distinct names is never longer than the number of names bound in scope
/// and exported by modules, so only a type that contains itself is cut.
pub open spec fn layout_fuel(scope: SymbolTable) -> nat {
    let total = symbol_total(scope.scopes@) + export_total(scope.modules@);
    if total < usize::MAX {
        total
    } else {
        usize::MAX as nat
    }
}

/// The layout of `t` in `scope`.
pub open spec fn layout_in(scope: SymbolTable, t: Ty) -> Option<(nat, nat)> {
    layout(scope.scopes@, scope.modules@, t, layout_fuel(scope))
}

// ---------------------------------------------------------------------------
// Computing layouts
// ---------------------------------------------------------------------------

proof fn lemma_round_up(n: nat, align: nat)
    requires
        align > 1,
    ensures
        n % align == 0 ==> round_up_spec(n, align) == n,
        n % align != 0 ==> round_up_spec(n, align) == (n / align + 1) * align,
        n <= round_up_spec(n, align),
{
    let q = n / align;
    let r = n % align;
    assert(n == q * align + r && 0 <= r < align) by (nonlinear_arith)
        requires
            align > 1,
            q == n / align,
            r == n % align,
    ;
    if r == 0 {
        assert((n + align - 1) / (align as int) == q) by (nonlinear_arith)
            requires
                n == q * align,
                align > 1,
        ;
    } else {
        assert((n + align - 1) / (align as int) == q + 1) by (nonlinear_arith)
            requires
                n == q * align + r,
                0 < r < align,
        ;
        assert(n <= (q + 1) * align) by (nonlinear_arith)
            requires
                n == q * align + r,
                0 < r < align,
        ;
    }
}

/// A struct or tuple is padded to a multiple of its alignment, keeps that
/// alignment, and covers every byte of its fields.
pub proof fn lemma_aggregate_padded(offset: nat, align: nat)
    ensures
        aggregate(Some((offset, align))) matches Some((size, a)) ==> a == align && offset <= size && (align > 1
            ==> size % align == 0),
{
    if align > 1 {
        lemma_round_up(offset, align);
        let q = offset / align;
        if offset % align != 0 {
            assert(((q + 1) * align) % align == 0) by (nonlinear_arith)
                requires
                    align > 1,
            ;
        }
    }
}

/// The payload region of an enum holds its largest payload: an enum whose
/// variants carry up to `payload` bytes spans the tag slot and at least
/// `payload` more bytes, in whole 8-byte words.
pub proof fn lemma_enum_payload_fits(payload: nat)
    ensures
        enum_layout(payload) matches Some((size, align)) ==> (payload == 0 ==> size == 4 && align == 4) && (payload
            > 0 ==> size >= 8 + payload && align == 8 && size % 8 == 0),
{
}

/// `n` rounded up to a multiple of `align`, or `None` past `usize::MAX`.
fn round_up_checked(n: usize, align: usize) -> (r: Option<usize>)
    ensures
        match r {
            Some(v) => fits(round_up_spec(n as nat, align as nat)) && v == round_up_spec(n as nat, align as nat),
            None => !fits(round_up_spec(n as nat, align as nat)),
        },
{
    if align <= 1 {
        return Some(n);
    }
    proof {
        lemma_round_up(n as nat, align as nat);
    }
    if n % align == 0 {
        Some(n)
    } else {
        let q = n / align;
        assert(q + 1 <= usize::MAX) by (nonlinear_arith)
            requires
                q == n / align,
                align > 1,
        ;
        (q + 1).checked_mul(align)
    }
}

/// `n` rounded up to a multiple of `align`; alignments 0 and 1 leave `n` as
/// it is.
pub fn round_up(n: usize, align: usize) -> (r: usize)
    requires
        fits(round_up_spec(n as nat, align as nat)),
    ensures
        r == round_up_spec(n as nat, align as nat),
{
    match round_up_checked(n, align) {
        Some(v) => v,
        None => n,
    }
}

fn builtin_size_of(b: BuiltinType) -> (r: usize)
    ensures
        r == builtin_size(b),
{
    match b {
        BuiltinType::Boolean | BuiltinType::Char | BuiltinType::UInt1 | BuiltinType::Int1 | BuiltinType::Never => 1,
        BuiltinType::UInt2 | BuiltinType::Int2 | BuiltinType::Float2 => 2,
        BuiltinType::UInt4 | BuiltinType::Int4 | BuiltinType::Float4 => 4,
        BuiltinType::UInt8 | BuiltinType::Int8 | BuiltinType::Float8 => 8,
        BuiltinType::UInt16 | BuiltinType::Int16 | BuiltinType::Float16 => 16,
        BuiltinType::String => 8,
        BuiltinType::Void => 0,
    }
}

fn place_checked(offset: usize, align: usize, field: Option<(usize, usize)>) -> (r: Option<(usize, usize)>)
    ensures
        match field {
            Some((s, a)) => match r {
                Some((o, al)) => place(offset as nat, align as nat, Some((s as nat, a as nat))) == Some((o as nat, al as nat)),
                None => place(offset as nat, align as nat, Some((s as nat, a as nat))) is None,
            },
            None => r is None,
        },
{
    match field {
        Some((size, a)) => match round_up_checked(offset, a) {
            Some(start) => match start.checked_add(size) {
                Some(end) => Some((end, if a > align { a } else { align })),
                None => None,
            },
            None => None,
        },
        None => None,
    }
}

fn aggregate_checked(acc: Option<(usize, usize)>) -> (r: Option<(usize, usize)>)
    ensures
        match acc {
            Some((o, al)) => match r {
                Some((s, a)) => aggregate(Some((o as nat, al as nat))) == Some((s as nat, a as nat)),
                None => aggregate(Some((o as nat, al as nat))) is None,
            },
            None => r is None,
        },
{
    match acc {
        Some((offset, align)) => match round_up_checked(offset, align) {
            Some(size) => Some((size, align)),
            None => None,
        },
        None => None,
    }
}

fn enum_layout_checked(payload: usize) -> (r: Option<(usize, usize)>)
    ensures
        match r {
            Some((s, a)) => enum_layout(payload as nat) == Some((s as nat, a as nat)),
            None => enum_layout(payload as nat) is None,
        },
{
    if payload == 0 {
        return Some((4, 4));
    }
    let words: usize = payload / 8 + if payload % 8 == 0 { 0 } else { 1 };
    assert(words == (payload + 7) / 8);
    match words.checked_mul(8) {
        Some(bytes) => match bytes.checked_add(8) {
            Some(total) => Some((total, 8)),
            None => None,
        },
        None => None,
    }
}

/// The layout of `ty`, following at most `fuel` type names along a path.
fn layout_checked(ty: &Ty, scope: &SymbolTable, fuel: usize) -> (r: Option<(usize, usize)>)
    ensures
        match r {
            Some((s, a)) => layout(scope.scopes@, scope.modules@, *ty, fuel as nat) == Some((s as nat, a as nat)),
            None => layout(scope.scopes@, scope.modules@, *ty, fuel as nat) is None,
        },
    decreases fuel, ty,
{
    match ty {
        Ty::Builtin(b) => {
            let s = builtin_size_of(*b);
            Some((s, if s > 1 { s } else { 1 }))
        },
        Ty::Pointer(_) => Some((8, 8)),
        Ty::Function { .. } => Some((8, 8)),
        Ty::Slice(_) => Some((16, 8)),
        Ty::Array { element_type, size } => match layout_checked(&**element_type, scope, fuel) {
            Some((s, a)) => match round_up_checked(s, a) {
                Some(stride) => {
                    if *size > usize::MAX as u64 {
                        None
                    } else {
                        let count = *size as usize;
                        match stride.checked_mul(count) {
                            Some(total) => Some((total, a)),
                            None => None,
                        }
                    }
                },
                None => None,
            },
            None => None,
        },
        Ty::Struct { fields } => {
            proof { assert(decreases_to!(fields => fields@)); }
            aggregate_checked(fields_offset_checked(fields, scope, fuel))
        },
        Ty::Tuple { elements } => {
            proof { assert(decreases_to!(elements => elements@)); }
            aggregate_checked(tys_offset_checked(elements, scope, fuel))
        },
        Ty::Enum { variants } => {
            proof { assert(decreases_to!(variants => variants@)); }
            match max_payload_checked(variants, scope, fuel) {
                Some(p) => enum_layout_checked(p),
                None => None,
            }
        },
        Ty::Identifier(id) => match scope.lookup(id) {
            Some(TypedSymbol::Type(inner)) => if fuel == 0 {
                None
            } else {
                layout_checked(inner, scope, fuel - 1)
            },
            _ => None,
        },
        Ty::QualifiedIdentifier { module, name } => match scope.lookup_module(module.as_str()) {
            Some(m) => match find_last_index(&m.exports, name) {
                Some(i) => match &m.exports[i].1 {
                    TypedSymbol::Type(inner) => if fuel == 0 {
                        None
                    } else {
                        layout_checked(inner, scope, fuel - 1)
                    },
                    _ => None,
                },
                None => None,
            },
            None => None,
        },
        Ty::Type => Some((0, 1)),
    }
}

proof fn lemma_fields_offset_none(scopes: Seq<Scope>, modules: Seq<(String, TypedModule)>, s: Seq<(String, Ty)>, i: int, fuel: nat)
    requires
        0 <= i <= s.len(),
        fields_offset(scopes, modules, s.subrange(0, i), fuel) is None,
    ensures
        fields_offset(scopes, modules, s, fuel) is None,
    decreases s.len() - i,
{
    if i < s.len() {
        assert(s.subrange(0, i + 1).drop_last() =~= s.subrange(0, i));
        lemma_fields_offset_none(scopes, modules, s, i + 1, fuel);
    } else {
        assert(s.subrange(0, i) =~= s);
    }
}

proof fn lemma_tys_offset_none(scopes: Seq<Scope>, modules: Seq<(String, TypedModule)>, s: Seq<Ty>, i: int, fuel: nat)
    requires
        0 <= i <= s.len(),
        tys_offset(scopes, modules, s.subrange(0, i), fuel) is None,
    ensures
        tys_offset(scopes, modules, s, fuel) is None,
    decreases s.len() - i,
{
    if i < s.len() {
        assert(s.subrange(0, i + 1).drop_last() =~= s.subrange(0, i));
        lemma_tys_offset_none(scopes, modules, s, i + 1, fuel);
    } else {
        assert(s.subrange(0, i) =~= s);
    }
}

proof fn lemma_max_payload_none(scopes: Seq<Scope>, modules: Seq<(String, TypedModule)>, s: Seq<TypedEnumVariant>, i: int, fuel: nat)
    requires
        0 <= i <= s.len(),
        max_payload(scopes, modules, s.subrange(0, i), fuel) is None,
    ensures
        max_payload(scopes, modules, s, fuel) is None,
    decreases s.len() - i,
{
    if i < s.len() {
        assert(s.subrange(0, i + 1).drop_last() =~= s.subrange(0, i));
        lemma_max_payload_none(scopes, modules, s, i + 1, fuel);
    } else {
        assert(s.subrange(0, i) =~= s);
    }
}

fn fields_offset_checked(fields: &Vec<(String, Ty)>, scope: &SymbolTable, fuel: usize) -> (r: Option<(usize, usize)>)
    ensures
        match r {
            Some((o, a)) => fields_offset(scope.scopes@, scope.modules@, fields@, fuel as nat) == Some((o as nat, a as nat)),
            None => fields_offset(scope.scopes@, scope.modules@, fields@, fuel as nat) is None,
        },
    decreases fuel, fields@,
{
    let mut acc: (usize, usize) = (0, 1);
    let mut i: usize = 0;
    assert(fields@.subrange(0, 0) =~= Seq::<(String, Ty)>::empty());
    while i < fields.len()
        invariant
            0 <= i <= fields.len(),
            fields_offset(scope.scopes@, scope.modules@, fields@.subrange(0, i as int), fuel as nat) == Some((acc.0 as nat, acc.1 as nat)),
        decreases fields.len() - i,
    {
        proof {
            assert(decreases_to!(fields@ => fields@[i as int]));
            assert(decreases_to!(fields@[i as int] => fields@[i as int].1));
            assert(fields@.subrange(0, i + 1).drop_last() =~= fields@.subrange(0, i as int));
        }
        let field = layout_checked(&fields[i].1, scope, fuel);
        match place_checked(acc.0, acc.1, field) {
            Some(next) => {
                acc = next;
            },
            None => {
                proof {
                    lemma_fields_offset_none(scope.scopes@, scope.modules@, fields@, i + 1, fuel as nat);
                }
                return None;
            },
        }
        i = i + 1;
    }
    assert(fields@.subrange(0, i as int) =~= fields@);
    Some(acc)
}

fn tys_offset_checked(tys: &Vec<Ty>, scope: &SymbolTable, fuel: usize) -> (r: Option<(usize, usize)>)
    ensures
        match r {
            Some((o, a)) => tys_offset(scope.scopes@, scope.modules@, tys@, fuel as nat) == Some((o as nat, a as nat)),
            None => tys_offset(scope.scopes@, scope.modules@, tys@, fuel as nat) is None,
        },
    decreases fuel, tys@,
{
    let mut acc: (usize, usize) = (0, 1);
    let mut i: usize = 0;
    assert(tys@.subrange(0, 0) =~= Seq::<Ty>::empty());
    while i < tys.len()
        invariant
            0 <= i <= tys.len(),
            tys_offset(scope.scopes@, scope.modules@, tys@.subrange(0, i as int), fuel as nat) == Some((acc.0 as nat, acc.1 as nat)),
        decreases tys.len() - i,
    {
        proof {
            assert(decreases_to!(tys@ => tys@[i as int]));
            assert(tys@.subrange(0, i + 1).drop_last() =~= tys@.subrange(0, i as int));
        }
        let field = layout_checked(&tys[i], scope, fuel);
        match place_checked(acc.0, acc.1, field) {
            Some(next) => {
                acc = next;
            },
            None => {
                proof {
                    lemma_tys_offset_none(scope.scopes@, scope.modules@, tys@, i + 1, fuel as nat);
                }
                return None;
            },
        }
        i = i + 1;
    }
    assert(tys@.subrange(0, i as int) =~= tys@);
    Some(acc)
}

fn max_payload_checked(variants: &Vec<TypedEnumVariant>, scope: &SymbolTable, fuel: usize) -> (r: Option<usize>)
    ensures
        match r {
            Some(p) => max_payload(scope.scopes@, scope.modules@, variants@, fuel as nat) == Some(p as nat),
            None => max_payload(scope.scopes@, scope.modules@, variants@, fuel as nat) is None,
        },
    decreases fuel, variants@,
{
    let mut best: usize = 0;
    let mut i: usize = 0;
    assert(variants@.subrange(0, 0) =~= Seq::<TypedEnumVariant>::empty());
    while i < variants.len()
        invariant
            0 <= i <= variants.len(),
            max_payload(scope.scopes@, scope.modules@, variants@.subrange(0, i as int), fuel as nat) == Some(best as nat),
        decreases variants.len() - i,
    {
        proof {
            assert(decreases_to!(variants@ => variants@[i as int]));
            assert(decreases_to!(variants@[i as int] => variants@[i as int].payload));
            assert(variants@.subrange(0, i + 1).drop_last() =~= variants@.subrange(0, i as int));
        }
        match &variants[i].payload {
            Some(fs) => {
                proof { assert(decreases_to!(*fs => fs@)); }
                match aggregate_checked(fields_offset_checked(fs, scope, fuel)) {
                    Some((size, _)) => {
                        if size > best {
                            best = size;
                        }
                    },
                    None => {
                        proof {
                            lemma_max_payload_none(scope.scopes@, scope.modules@, variants@, i + 1, fuel as nat);
                        }
                        return None;
                    },
                }
            },
            None => {},
        }
        i = i + 1;
    }
    assert(variants@.subrange(0, i as int) =~= variants@);
    Some(best)
}

/// `layout_fuel`, computed.
fn layout_step_limit(scope: &SymbolTable) -> (n: usize)
    ensures
        n == layout_fuel(*scope),
{
    let mut total: usize = alias_step_limit(scope);
    let ghost names = symbol_total(scope.scopes@);
    let mut k: usize = 0;
    assert(scope.modules@.subrange(0, 0) =~= Seq::<(String, TypedModule)>::empty());
    while k < scope.modules.len()
        invariant
            0 <= k <= scope.modules.len(),
            names == symbol_total(scope.scopes@),
            total == (if names + export_total(scope.modules@.subrange(0, k as int)) < usize::MAX {
                names + export_total(scope.modules@.subrange(0, k as int))
            } else {
                usize::MAX as nat
            }),
        decreases scope.modules.len() - k,
    {
        proof {
            assert(scope.modules@.subrange(0, k + 1).drop_last() =~= scope.modules@.subrange(0, k as int));
        }
        let len = scope.modules[k].1.exports.len();
        if total >= usize::MAX - len {
            total = usize::MAX;
        } else {
            total = total + len;
        }
        k = k + 1;
    }
    assert(scope.modules@.subrange(0, k as int) =~= scope.modules@);
    total
}

/// Size and alignment in bytes of `ty`: builtins at their width (alignment
/// at least 1), pointers and function values 8, slices a pointer and a
/// length, arrays `count` strides of the padded element, structs and tuples
/// laid out field by field, enums a tag and their largest payload; names are
/// followed through `scope`. A type whose layout cannot be had (a name bound
/// to no type, a type that contains itself, a size beyond `usize`) is an
/// `UnknownLayout` error naming it.
pub fn typed_type_size_align(ty: &Ty, scope: &SymbolTable) -> (r: Result<(usize, usize), LowerError>)
    ensures
        match layout_in(*scope, *ty) {
            Some((size, align)) => r == Ok::<(usize, usize), LowerError>((size as usize, align as usize)) && size <= usize::MAX
                && align <= usize::MAX,
            None => r matches Err(LowerError::UnknownLayout { name }) && name@ == type_text(ty@),
        },
{
    let fuel = layout_step_limit(scope);
    match layout_checked(ty, scope, fuel) {
        Some(r) => Ok(r),
        None => Err(LowerError::UnknownLayout { name: describe_type(ty) }),
    }
}

/// Lay out `field_types` in order like a struct: the padded total size and
/// the alignment, or an `UnknownLayout` error naming the field types.
pub fn struct_layout_size_align(field_types: &Vec<Ty>, scope: &SymbolTable) -> (r: Result<(usize, usize), LowerError>)
    ensures
        match aggregate(tys_offset(scope.scopes@, scope.modules@, field_types@, layout_fuel(*scope))) {
            Some((size, align)) => r == Ok::<(usize, usize), LowerError>((size as usize, align as usize)) && size <= usize::MAX
                && align <= usize::MAX,
            None => r matches Err(LowerError::UnknownLayout { name }) && name@ == type_text(TyV::Tuple { elements: tys_view(field_types@) }),
        },
{
    let fuel = layout_step_limit(scope);
    match aggregate_checked(tys_offset_checked(field_types, scope, fuel)) {
        Some(r) => Ok(r),
        None => {
            let t = Ty::Tuple { elements: copy_tys(field_types) };
            Err(LowerError::UnknownLayout { name: describe_type(&t) })
        },
    }
}

/// The largest padded payload size among `variants`, 0 when no variant
/// carries a payload, or an `UnknownLayout` error naming the enum.
pub fn enum_max_payload_bytes(variants: &Vec<TypedEnumVariant>, scope: &SymbolTable) -> (r: Result<usize, LowerError>)
    ensures
        match max_payload(scope.scopes@, scope.modules@, variants@, layout_fuel(*scope)) {
            Some(p) => r == Ok::<usize, LowerError>(p as usize) && p <= usize::MAX,
            None => r matches Err(LowerError::UnknownLayout { name }) && name@ == "enum"@,
        },
{
    let fuel = layout_step_limit(scope);
    match max_payload_checked(variants, scope, fuel) {
        Some(p) => Ok(p),
        None => Err(LowerError::UnknownLayout { name: str_to_string("enum") }),
    }
}


/// The number a nonempty string of decimal digits spells.
pub open spec fn digits_value(d: Seq<char>) -> Option<nat>
    decreases d.len(),
{
    if d.len() == 0 || !('0' <= d.last() && d.last() <= '9') {
        None
    } else if d.len() == 1 {
        Some((d.last() as int - '0' as int) as nat)
    } else {
        match digits_value(d.drop_last()) {
            Some(v) => Some((v * 10 + (d.last() as int - '0' as int)) as nat),
            None => None,
        }
    }
}

/// The byte width a numeric builtin's spelling names: the number after
/// `@int`, `@uint` or `@float`, with no number meaning one byte; `None` for
/// any other spelling.
pub open spec fn spelled_width(s: Seq<char>) -> Option<nat> {
    let p: int = if s.len() >= 4 && s.subrange(0, 4) == "@int"@ {
        4
    } else if s.len() >= 5 && s.subrange(0, 5) == "@uint"@ {
        5
    } else if s.len() >= 6 && s.subrange(0, 6) == "@float"@ {
        6
    } else {
        0
    };
    if p == 0 {
        None
    } else if s.len() == p {
        Some(1)
    } else {
        digits_value(s.subrange(p, s.len() as int))
    }
}

/// A numeric builtin type is as many bytes wide, and as aligned, as its
/// spelling says: `@int4` and `@float4` take four bytes, `@int8`, `@uint8`
/// and `@float8` eight, and so on for every width.
pub proof fn lemma_numeric_layout_is_spelled(scopes: Seq<Scope>, modules: Seq<(String, TypedModule)>, b: BuiltinType, fuel: nat)
    requires
        spelled_width(builtin_spelling(b)) is Some,
    ensures
        layout(scopes, modules, Ty::Builtin(b), fuel) == Some((spelled_width(builtin_spelling(b))->0, spelled_width(builtin_spelling(b))->0)),
{
    reveal_strlit("@int");
    reveal_strlit("@uint");
    reveal_strlit("@float");
    reveal_with_fuel(digits_value, 3);
    let s = builtin_spelling(b);
    match b {
        BuiltinType::Int1 => { reveal_strlit("@int"); assert(s.subrange(0, 4) =~= "@int"@); },
        BuiltinType::Int2 => { reveal_strlit("@int2"); assert(s.subrange(0, 4) =~= "@int"@); assert(s.subrange(4, 5) =~= seq!['2']); },
        BuiltinType::Int4 => { reveal_strlit("@int4"); assert(s.subrange(0, 4) =~= "@int"@); assert(s.subrange(4, 5) =~= seq!['4']); },
        BuiltinType::Int8 => { reveal_strlit("@int8"); assert(s.subrange(0, 4) =~= "@int"@); assert(s.subrange(4, 5) =~= seq!['8']); },
        BuiltinType::Int16 => {
            reveal_strlit("@int16");
            assert(s.subrange(0, 4) =~= "@int"@);
            assert(s.subrange(4, 6) =~= seq!['1', '6']);
            assert(s.subrange(4, 6).drop_last() =~= seq!['1']);
        },
        BuiltinType::UInt1 => { reveal_strlit("@uint"); assert(s[1] != 'i'); assert(s.subrange(0, 5) =~= "@uint"@); },
        BuiltinType::UInt2 => {
            reveal_strlit("@uint2");
            assert(s.subrange(0, 4)[1] != "@int"@[1]);
            assert(s.subrange(0, 5) =~= "@uint"@);
            assert(s.subrange(5, 6) =~= seq!['2']);
        },
        BuiltinType::UInt4 => {
            reveal_strlit("@uint4");
            assert(s.subrange(0, 4)[1] != "@int"@[1]);
            assert(s.subrange(0, 5) =~= "@uint"@);
            assert(s.subrange(5, 6) =~= seq!['4']);
        },
        BuiltinType::UInt8 => {
            reveal_strlit("@uint8");
            assert(s.subrange(0, 4)[1] != "@int"@[1]);
            assert(s.subrange(0, 5) =~= "@uint"@);
            assert(s.subrange(5, 6) =~= seq!['8']);
        },
        BuiltinType::UInt16 => {
            reveal_strlit("@uint16");
            assert(s.subrange(0, 4)[1] != "@int"@[1]);
            assert(s.subrange(0, 5) =~= "@uint"@);
            assert(s.subrange(5, 7) =~= seq!['1', '6']);
            assert(s.subrange(5, 7).drop_last() =~= seq!['1']);
        },
        BuiltinType::Float2 => {
            reveal_strlit("@float2");
            assert(s.subrange(0, 4)[1] != "@int"@[1]);
            assert(s.subrange(0, 5)[1] != "@uint"@[1]);
            assert(s.subrange(0, 6) =~= "@float"@);
            assert(s.subrange(6, 7) =~= seq!['2']);
        },
        BuiltinType::Float4 => {
            reveal_strlit("@float4");
            assert(s.subrange(0, 4)[1] != "@int"@[1]);
            assert(s.subrange(0, 5)[1] != "@uint"@[1]);
            assert(s.subrange(0, 6) =~= "@float"@);
            assert(s.subrange(6, 7) =~= seq!['4']);
        },
        BuiltinType::Float8 => {
            reveal_strlit("@float8");
            assert(s.subrange(0, 4)[1] != "@int"@[1]);
            assert(s.subrange(0, 5)[1] != "@uint"@[1]);
            assert(s.subrange(0, 6) =~= "@float"@);
            assert(s.subrange(6, 7) =~= seq!['8']);
        },
        BuiltinType::Float16 => {
            reveal_strlit("@float16");
            assert(s.subrange(0, 4)[1] != "@int"@[1]);
            assert(s.subrange(0, 5)[1] != "@uint"@[1]);
            assert(s.subrange(0, 6) =~= "@float"@);
            assert(s.subrange(6, 8) =~= seq!['1', '6']);
            assert(s.subrange(6, 8).drop_last() =~= seq!['1']);
        },
        BuiltinType::Boolean => {
            reveal_strlit("@bool");
            assert(s.subrange(0, 4)[1] != "@int"@[1]);
            assert(s.subrange(0, 5)[1] != "@uint"@[1]);
        },
        BuiltinType::Char => {
            reveal_strlit("@char");
            assert(s.subrange(0, 4)[1] != "@int"@[1]);
            assert(s.subrange(0, 5)[1] != "@uint"@[1]);
        },
        BuiltinType::String => {
            reveal_strlit("@string");
            assert(s.subrange(0, 4)[1] != "@int"@[1]);
            assert(s.subrange(0, 5)[1] != "@uint"@[1]);
            assert(s.subrange(0, 6)[1] != "@float"@[1]);
        },
        BuiltinType::Void => {
            reveal_strlit("@void");
            assert(s.subrange(0, 4)[1] != "@int"@[1]);
            assert(s.subrange(0, 5)[1] != "@uint"@[1]);
        },
        BuiltinType::Never => {
            reveal_strlit("@never");
            assert(s.subrange(0, 4)[1] != "@int"@[1]);
            assert(s.subrange(0, 5)[1] != "@uint"@[1]);
            assert(s.subrange(0, 6)[1] != "@float"@[1]);
        },
    }
}

} // verus!
