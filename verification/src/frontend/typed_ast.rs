//! The typed program produced by semantic analysis: semantic types, typed
//! expressions and statements, and the scoped symbol table.
use vstd::prelude::*;

use crate::frontend::ast::FunctionDeclaration;
use crate::frontend::tokens::{BuiltinFunction, BuiltinType, Identifier, Operator};

verus! {

// ---------------------------------------------------------------------------
// Semantic types
// ---------------------------------------------------------------------------

/// A semantic type.
#[derive(Debug)]
pub enum Ty {
    Builtin(BuiltinType),
    /// A named type, resolved through the symbol table.
    Identifier(Identifier),
    QualifiedIdentifier { module: String, name: Identifier },
    Struct { fields: Vec<(String, Ty)> },
    Enum { variants: Vec<TypedEnumVariant> },
    Function { argument_types: Vec<Ty>, return_type: Box<Ty> },
    Tuple { elements: Vec<Ty> },
    Pointer(Box<Ty>),
    Array { element_type: Box<Ty>, size: u64 },
    Slice(Box<Ty>),
    /// The type of compile-time type values.
    Type,
}

/// An enum variant with its position (the discriminant) and payload fields.
#[derive(Debug)]
pub struct TypedEnumVariant {
    pub name: String,
    pub discriminant: u32,
    pub payload: Option<Vec<(String, Ty)>>,
}

/// The mathematical value of a type: names as character sequences.
pub enum TyV {
    Builtin(BuiltinType),
    Identifier(Seq<char>),
    QualifiedIdentifier { module: Seq<char>, name: Seq<char> },
    Struct { fields: Seq<(Seq<char>, TyV)> },
    Enum { variants: Seq<VariantV> },
    Function { argument_types: Seq<TyV>, return_type: Box<TyV> },
    Tuple { elements: Seq<TyV> },
    Pointer(Box<TyV>),
    Array { element_type: Box<TyV>, size: u64 },
    Slice(Box<TyV>),
    Type,
}

pub struct VariantV {
    pub name: Seq<char>,
    pub discriminant: u32,
    pub payload: Option<Seq<(Seq<char>, TyV)>>,
}

pub open spec fn ty_view(t: &Ty) -> TyV
    decreases t,
{
    match t {
        Ty::Builtin(b) => TyV::Builtin(*b),
        Ty::Identifier(id) => TyV::Identifier(id.value@),
        Ty::QualifiedIdentifier { module, name } => TyV::QualifiedIdentifier { module: module@, name: name.value@ },
        Ty::Struct { fields } => {
            proof { assert(decreases_to!(fields => fields@)); }
            TyV::Struct { fields: fields_view(fields@) }
        },
        Ty::Enum { variants } => {
            proof { assert(decreases_to!(variants => variants@)); }
            TyV::Enum { variants: variants_view(variants@) }
        },
        Ty::Function { argument_types, return_type } => {
            proof { assert(decreases_to!(argument_types => argument_types@)); }
            TyV::Function { argument_types: tys_view(argument_types@), return_type: Box::new(ty_view(&**return_type)) }
        },
        Ty::Tuple { elements } => {
            proof { assert(decreases_to!(elements => elements@)); }
            TyV::Tuple { elements: tys_view(elements@) }
        },
        Ty::Pointer(p) => TyV::Pointer(Box::new(ty_view(&**p))),
        Ty::Array { element_type, size } => TyV::Array { element_type: Box::new(ty_view(&**element_type)), size: *size },
        Ty::Slice(p) => TyV::Slice(Box::new(ty_view(&**p))),
        Ty::Type => TyV::Type,
    }
}

pub open spec fn tys_view(s: Seq<Ty>) -> Seq<TyV>
    decreases s,
{
    if s.len() == 0 {
        Seq::empty()
    } else {
        proof {
            assert(decreases_to!(s => s.drop_last()));
            assert(decreases_to!(s => s[s.len() - 1]));
        }
        tys_view(s.drop_last()).push(ty_view(&s[s.len() - 1]))
    }
}

pub open spec fn fields_view(s: Seq<(String, Ty)>) -> Seq<(Seq<char>, TyV)>
    decreases s,
{
    if s.len() == 0 {
        Seq::empty()
    } else {
        proof {
            assert(decreases_to!(s => s.drop_last()));
            assert(decreases_to!(s => s[s.len() - 1]));
            assert(decreases_to!(s[s.len() - 1] => s[s.len() - 1].1));
        }
        fields_view(s.drop_last()).push((s[s.len() - 1].0@, ty_view(&s[s.len() - 1].1)))
    }
}

pub open spec fn variant_view(v: &TypedEnumVariant) -> VariantV
    decreases v,
{
    VariantV {
        name: v.name@,
        discriminant: v.discriminant,
        payload: match &v.payload {
            Some(fs) => {
                proof { assert(decreases_to!(fs => fs@)); }
                Some(fields_view(fs@))
            },
            None => None,
        },
    }
}

pub open spec fn variants_view(s: Seq<TypedEnumVariant>) -> Seq<VariantV>
    decreases s,
{
    if s.len() == 0 {
        Seq::empty()
    } else {
        proof {
            assert(decreases_to!(s => s.drop_last()));
            assert(decreases_to!(s => s[s.len() - 1]));
        }
        variants_view(s.drop_last()).push(variant_view(&s[s.len() - 1]))
    }
}

pub proof fn lemma_tys_view(s: Seq<Ty>)
    ensures
        tys_view(s).len() == s.len(),
        forall|i: int| 0 <= i < s.len() ==> #[trigger] tys_view(s)[i] == ty_view(&s[i]),
    decreases s.len(),
{
    if s.len() > 0 {
        lemma_tys_view(s.drop_last());
    }
}

pub proof fn lemma_fields_view(s: Seq<(String, Ty)>)
    ensures
        fields_view(s).len() == s.len(),
        forall|i: int| 0 <= i < s.len() ==> #[trigger] fields_view(s)[i] == (s[i].0@, ty_view(&s[i].1)),
    decreases s.len(),
{
    if s.len() > 0 {
        lemma_fields_view(s.drop_last());
    }
}

pub proof fn lemma_variants_view(s: Seq<TypedEnumVariant>)
    ensures
        variants_view(s).len() == s.len(),
        forall|i: int| 0 <= i < s.len() ==> #[trigger] variants_view(s)[i] == variant_view(&s[i]),
    decreases s.len(),
{
    if s.len() > 0 {
        lemma_variants_view(s.drop_last());
    }
}

pub proof fn lemma_view_variant(t: &Ty)
    ensures
        (t@ is Builtin) <==> (*t is Builtin),
        (t@ is Identifier) <==> (*t is Identifier),
        (t@ is QualifiedIdentifier) <==> (*t is QualifiedIdentifier),
        (t@ is Struct) <==> (*t is Struct),
        (t@ is Enum) <==> (*t is Enum),
        (t@ is Function) <==> (*t is Function),
        (t@ is Tuple) <==> (*t is Tuple),
        (t@ is Pointer) <==> (*t is Pointer),
        (t@ is Array) <==> (*t is Array),
        (t@ is Slice) <==> (*t is Slice),
        (t@ is Type) <==> (*t is Type),
{
}

impl View for Ty {
    type V = TyV;

    open spec fn view(&self) -> TyV {
        ty_view(self)
    }
}

impl View for TypedEnumVariant {
    type V = VariantV;

    open spec fn view(&self) -> VariantV {
        variant_view(self)
    }
}

/// Structural equality of types (names compared by their characters).
pub fn ty_eq(a: &Ty, b: &Ty) -> (r: bool)
    ensures
        r == (a@ == b@),
    decreases a, 0nat,
{
    proof {
        lemma_view_variant(a);
        lemma_view_variant(b);
    }
    match a {
        Ty::Builtin(x) => match b {
            Ty::Builtin(y) => {
                let r = *x == *y;
                proof { assert(r == (a@ == b@)); }
                r
            },
            _ => false,
        },
        Ty::Identifier(x) => match b {
            Ty::Identifier(y) => {
                let r = x.value == y.value;
                proof { assert(r == (a@ == b@)); }
                r
            },
            _ => false,
        },
        Ty::QualifiedIdentifier { module: m1, name: n1 } => match b {
            Ty::QualifiedIdentifier { module: m2, name: n2 } => {
                let r = *m1 == *m2 && n1.value == n2.value;
                proof { assert(r == (a@ == b@)); }
                r
            },
            _ => false,
        },
        Ty::Struct { fields: xs } => match b {
            Ty::Struct { fields: ys } => {
                proof { assert(decreases_to!(*a => *xs)); assert(decreases_to!(xs => xs@)); }
                fields_eq(xs, ys)
            },
            _ => false,
        },
        Ty::Enum { variants: xs } => match b {
            Ty::Enum { variants: ys } => {
                proof { assert(decreases_to!(*a => *xs)); assert(decreases_to!(xs => xs@)); }
                variants_eq(xs, ys)
            },
            _ => false,
        },
        Ty::Function { argument_types: xs, return_type: xr } => match b {
            Ty::Function { argument_types: ys, return_type: yr } => {
                proof { assert(decreases_to!(*a => *xs)); assert(decreases_to!(xs => xs@)); }
                let r = tys_eq(xs, ys) && ty_eq(&**xr, &**yr);
                proof { assert(r == (a@ == b@)); }
                r
            },
            _ => false,
        },
        Ty::Tuple { elements: xs } => match b {
            Ty::Tuple { elements: ys } => {
                proof { assert(decreases_to!(*a => *xs)); assert(decreases_to!(xs => xs@)); }
                tys_eq(xs, ys)
            },
            _ => false,
        },
        Ty::Pointer(x) => match b {
            Ty::Pointer(y) => {
                let r = ty_eq(&**x, &**y);
                proof { assert(r == (a@ == b@)); }
                r
            },
            _ => false,
        },
        Ty::Array { element_type: x, size: sx } => match b {
            Ty::Array { element_type: y, size: sy } => {
                let r = *sx == *sy && ty_eq(&**x, &**y);
                proof { assert(r == (a@ == b@)); }
                r
            },
            _ => false,
        },
        Ty::Slice(x) => match b {
            Ty::Slice(y) => {
                let r = ty_eq(&**x, &**y);
                proof { assert(r == (a@ == b@)); }
                r
            },
            _ => false,
        },
        Ty::Type => match b {
            Ty::Type => true,
            _ => false,
        },
    }
}

fn tys_eq(xs: &Vec<Ty>, ys: &Vec<Ty>) -> (r: bool)
    ensures
        r == (tys_view(xs@) == tys_view(ys@)),
    decreases xs@, 0nat,
{
    proof {
        lemma_tys_view(xs@);
        lemma_tys_view(ys@);
    }
    if xs.len() != ys.len() {
        return false;
    }
    let mut i: usize = 0;
    while i < xs.len()
        invariant
            xs.len() == ys.len(),
            0 <= i <= xs.len(),
            forall|j: int| 0 <= j < i ==> tys_view(xs@)[j] == tys_view(ys@)[j],
            tys_view(xs@).len() == xs.len(),
            tys_view(ys@).len() == ys.len(),
            forall|j: int| 0 <= j < xs.len() ==> #[trigger] tys_view(xs@)[j] == ty_view(&xs@[j]),
            forall|j: int| 0 <= j < ys.len() ==> #[trigger] tys_view(ys@)[j] == ty_view(&ys@[j]),
        decreases xs.len() - i,
    {
        if !ty_eq(&xs[i], &ys[i]) {
            proof { assert(tys_view(xs@)[i as int] != tys_view(ys@)[i as int]); }
            return false;
        }
        i = i + 1;
    }
    proof { assert(tys_view(xs@) =~= tys_view(ys@)); }
    true
}

fn fields_eq(xs: &Vec<(String, Ty)>, ys: &Vec<(String, Ty)>) -> (r: bool)
    ensures
        r == (fields_view(xs@) == fields_view(ys@)),
    decreases xs@, 0nat,
{
    proof {
        lemma_fields_view(xs@);
        lemma_fields_view(ys@);
    }
    if xs.len() != ys.len() {
        return false;
    }
    let mut i: usize = 0;
    while i < xs.len()
        invariant
            xs.len() == ys.len(),
            0 <= i <= xs.len(),
            forall|j: int| 0 <= j < i ==> fields_view(xs@)[j] == fields_view(ys@)[j],
            fields_view(xs@).len() == xs.len(),
            fields_view(ys@).len() == ys.len(),
            forall|j: int| 0 <= j < xs.len() ==> #[trigger] fields_view(xs@)[j] == (xs@[j].0@, ty_view(&xs@[j].1)),
            forall|j: int| 0 <= j < ys.len() ==> #[trigger] fields_view(ys@)[j] == (ys@[j].0@, ty_view(&ys@[j].1)),
        decreases xs.len() - i,
    {
        proof {
            assert(decreases_to!(xs@ => xs@[i as int]));
            assert(decreases_to!(xs@[i as int] => xs@[i as int].1));
        }
        if xs[i].0 != ys[i].0 || !ty_eq(&xs[i].1, &ys[i].1) {
            proof { assert(fields_view(xs@)[i as int] != fields_view(ys@)[i as int]); }
            return false;
        }
        i = i + 1;
    }
    proof { assert(fields_view(xs@) =~= fields_view(ys@)); }
    true
}

fn variants_eq(xs: &Vec<TypedEnumVariant>, ys: &Vec<TypedEnumVariant>) -> (r: bool)
    ensures
        r == (variants_view(xs@) == variants_view(ys@)),
    decreases xs@, 0nat,
{
    proof {
        lemma_variants_view(xs@);
        lemma_variants_view(ys@);
    }
    if xs.len() != ys.len() {
        return false;
    }
    let mut i: usize = 0;
    while i < xs.len()
        invariant
            xs.len() == ys.len(),
            0 <= i <= xs.len(),
            forall|j: int| 0 <= j < i ==> variants_view(xs@)[j] == variants_view(ys@)[j],
            variants_view(xs@).len() == xs.len(),
            variants_view(ys@).len() == ys.len(),
            forall|j: int| 0 <= j < xs.len() ==> #[trigger] variants_view(xs@)[j] == variant_view(&xs@[j]),
            forall|j: int| 0 <= j < ys.len() ==> #[trigger] variants_view(ys@)[j] == variant_view(&ys@[j]),
        decreases xs.len() - i,
    {
        proof { assert(decreases_to!(xs@ => xs@[i as int])); }
        let same = if xs[i].name != ys[i].name || xs[i].discriminant != ys[i].discriminant {
            false
        } else {
            match &xs[i].payload {
                Some(px) => match &ys[i].payload {
                    Some(py) => {
                        proof {
                            assert(decreases_to!(xs@[i as int] => xs@[i as int].payload));
                            assert(decreases_to!(*px => px@));
                        }
                        fields_eq(px, py)
                    },
                    None => false,
                },
                None => match &ys[i].payload {
                    Some(_) => false,
                    None => true,
                },
            }
        };
        if !same {
            proof { assert(variants_view(xs@)[i as int] != variants_view(ys@)[i as int]); }
            return false;
        }
        i = i + 1;
    }
    proof { assert(variants_view(xs@) =~= variants_view(ys@)); }
    true
}

impl Ty {
    /// A copy of this type.
    pub fn copy(&self) -> (r: Ty)
        ensures
            r@ == self@,
        decreases self, 0nat,
    {
        match self {
            Ty::Builtin(b) => Ty::Builtin(*b),
            Ty::Identifier(id) => Ty::Identifier(id.clone()),
            Ty::QualifiedIdentifier { module, name } => Ty::QualifiedIdentifier { module: module.clone(), name: name.clone() },
            Ty::Struct { fields } => {
                proof { assert(decreases_to!(*self => *fields)); assert(decreases_to!(fields => fields@)); }
                Ty::Struct { fields: copy_fields(fields) }
            },
            Ty::Enum { variants } => {
                proof { assert(decreases_to!(*self => *variants)); assert(decreases_to!(variants => variants@)); }
                Ty::Enum { variants: copy_variants(variants) }
            },
            Ty::Function { argument_types, return_type } => {
                proof { assert(decreases_to!(*self => *argument_types)); assert(decreases_to!(argument_types => argument_types@)); }
                Ty::Function { argument_types: copy_tys(argument_types), return_type: Box::new((**return_type).copy()) }
            },
            Ty::Tuple { elements } => {
                proof { assert(decreases_to!(*self => *elements)); assert(decreases_to!(elements => elements@)); }
                Ty::Tuple { elements: copy_tys(elements) }
            },
            Ty::Pointer(p) => Ty::Pointer(Box::new((**p).copy())),
            Ty::Array { element_type, size } => Ty::Array { element_type: Box::new((**element_type).copy()), size: *size },
            Ty::Slice(p) => Ty::Slice(Box::new((**p).copy())),
            Ty::Type => Ty::Type,
        }
    }
}

pub fn copy_tys(v: &Vec<Ty>) -> (r: Vec<Ty>)
    ensures
        tys_view(r@) == tys_view(v@),
        r.len() == v.len(),
    decreases v@, 0nat,
{
    proof { lemma_tys_view(v@); }
    let mut out: Vec<Ty> = Vec::new();
    let mut i: usize = 0;
    while i < v.len()
        invariant
            0 <= i <= v.len(),
            out.len() == i,
            forall|j: int| 0 <= j < i ==> ty_view(&out@[j]) == ty_view(&v@[j]),
        decreases v.len() - i,
    {
        proof { assert(decreases_to!(v@ => v@[i as int])); }
        out.push(v[i].copy());
        i = i + 1;
    }
    proof {
        lemma_tys_view(out@);
        assert(tys_view(out@) =~= tys_view(v@));
    }
    out
}

pub fn copy_fields(v: &Vec<(String, Ty)>) -> (r: Vec<(String, Ty)>)
    ensures
        fields_view(r@) == fields_view(v@),
        r.len() == v.len(),
    decreases v@, 0nat,
{
    proof { lemma_fields_view(v@); }
    let mut out: Vec<(String, Ty)> = Vec::new();
    let mut i: usize = 0;
    while i < v.len()
        invariant
            0 <= i <= v.len(),
            out.len() == i,
            forall|j: int| 0 <= j < i ==> out@[j].0@ == v@[j].0@ && ty_view(&out@[j].1) == ty_view(&v@[j].1),
        decreases v.len() - i,
    {
        proof {
            assert(decreases_to!(v@ => v@[i as int]));
            assert(decreases_to!(v@[i as int] => v@[i as int].1));
        }
        out.push((v[i].0.clone(), v[i].1.copy()));
        i = i + 1;
    }
    proof {
        lemma_fields_view(out@);
        assert(fields_view(out@) =~= fields_view(v@));
    }
    out
}

pub fn copy_variants(v: &Vec<TypedEnumVariant>) -> (r: Vec<TypedEnumVariant>)
    ensures
        variants_view(r@) == variants_view(v@),
        r.len() == v.len(),
    decreases v@, 0nat,
{
    proof { lemma_variants_view(v@); }
    let mut out: Vec<TypedEnumVariant> = Vec::new();
    let mut i: usize = 0;
    while i < v.len()
        invariant
            0 <= i <= v.len(),
            out.len() == i,
            forall|j: int| 0 <= j < i ==> variant_view(&out@[j]) == variant_view(&v@[j]),
        decreases v.len() - i,
    {
        proof { assert(decreases_to!(v@ => v@[i as int])); }
        let payload = match &v[i].payload {
            Some(fs) => {
                proof {
                    assert(decreases_to!(v@[i as int] => v@[i as int].payload));
                    assert(decreases_to!(*fs => fs@));
                }
                Some(copy_fields(fs))
            },
            None => None,
        };
        out.push(TypedEnumVariant { name: v[i].name.clone(), discriminant: v[i].discriminant, payload });
        i = i + 1;
    }
    proof {
        lemma_variants_view(out@);
        assert(variants_view(out@) =~= variants_view(v@));
    }
    out
}

impl Clone for Ty {
    fn clone(&self) -> (r: Self)
        ensures
            r@ == self@,
    {
        self.copy()
    }
}

impl Clone for TypedEnumVariant {
    fn clone(&self) -> (r: Self) {
        TypedEnumVariant {
            name: self.name.clone(),
            discriminant: self.discriminant,
            payload: match &self.payload {
                Some(fs) => Some(copy_fields(fs)),
                None => None,
            },
        }
    }
}

impl PartialEq for Ty {
    fn eq(&self, other: &Ty) -> (r: bool) {
        ty_eq(self, other)
    }
}

impl vstd::std_specs::cmp::PartialEqSpecImpl for Ty {
    open spec fn obeys_eq_spec() -> bool {
        true
    }

    open spec fn eq_spec(&self, other: &Ty) -> bool {
        self@ == other@
    }
}

// ---------------------------------------------------------------------------
// Operators
// ---------------------------------------------------------------------------

/// Binary operators after analysis (the syntax operator mapped to its meaning).
#[derive(Debug, Clone, Copy, PartialEq, Eq, Structural)]
pub enum BinOp {
    Add,
    Sub,
    Mul,
    Div,
    Rem,
    Shl,
    Shr,
    BitAnd,
    BitOr,
    Xor,
    Eq,
    Ne,
    Lt,
    Le,
    Gt,
    Ge,
}

pub open spec fn binop_of(op: Operator) -> Option<BinOp> {
    match op {
        Operator::Plus => Some(BinOp::Add),
        Operator::Minus => Some(BinOp::Sub),
        Operator::Star => Some(BinOp::Mul),
        Operator::Slash => Some(BinOp::Div),
        Operator::Percent => Some(BinOp::Rem),
        Operator::LeftShift => Some(BinOp::Shl),
        Operator::RightShift => Some(BinOp::Shr),
        Operator::Ampersand => Some(BinOp::BitAnd),
        Operator::Pipe => Some(BinOp::BitOr),
        Operator::Caret => Some(BinOp::Xor),
        Operator::DoubleEquals => Some(BinOp::Eq),
        Operator::Different => Some(BinOp::Ne),
        Operator::LesserThan => Some(BinOp::Lt),
        Operator::LesserEqual => Some(BinOp::Le),
        Operator::GreaterThan => Some(BinOp::Gt),
        Operator::GreaterEqual => Some(BinOp::Ge),
        _ => None,
    }
}

impl BinOp {
    /// The arithmetic, bitwise, comparison or equality meaning of a syntax operator.
    pub fn from_syntax(op: Operator) -> (r: Option<BinOp>)
        ensures
            r == binop_of(op),
    {
        match op {
            Operator::Plus => Some(BinOp::Add),
            Operator::Minus => Some(BinOp::Sub),
            Operator::Star => Some(BinOp::Mul),
            Operator::Slash => Some(BinOp::Div),
            Operator::Percent => Some(BinOp::Rem),
            Operator::LeftShift => Some(BinOp::Shl),
            Operator::RightShift => Some(BinOp::Shr),
            Operator::Ampersand => Some(BinOp::BitAnd),
            Operator::Pipe => Some(BinOp::BitOr),
            Operator::Caret => Some(BinOp::Xor),
            Operator::DoubleEquals => Some(BinOp::Eq),
            Operator::Different => Some(BinOp::Ne),
            Operator::LesserThan => Some(BinOp::Lt),
            Operator::LesserEqual => Some(BinOp::Le),
            Operator::GreaterThan => Some(BinOp::Gt),
            Operator::GreaterEqual => Some(BinOp::Ge),
            _ => None,
        }
    }
}

/// Short-circuiting logical operators.
#[derive(Debug, Clone, Copy, PartialEq, Eq, Structural)]
pub enum LogicalOp {
    And,
    Or,
}

impl LogicalOp {
    pub fn from_syntax(op: Operator) -> (r: Option<LogicalOp>)
        ensures
            r == (match op {
                Operator::LogicalAnd => Some(LogicalOp::And),
                Operator::LogicalOr => Some(LogicalOp::Or),
                _ => None,
            }),
    {
        match op {
            Operator::LogicalAnd => Some(LogicalOp::And),
            Operator::LogicalOr => Some(LogicalOp::Or),
            _ => None,
        }
    }
}

// ---------------------------------------------------------------------------
// Typed expressions and statements
// ---------------------------------------------------------------------------

#[derive(Debug)]
pub struct TypedExpr {
    pub inferred_type: Ty,
    pub expression: TypedExprKind,
}

#[derive(Debug)]
pub enum TypedExprKind {
    LiteralInt { value: u64 },
    /// A float literal, kept as its source text.
    LiteralFloat { value: String },
    LiteralBool(bool),
    LiteralString { value: String },
    Null,
    Identifier(Identifier),
    /// A type used as a compile-time value.
    ComptimeType(Ty),
    BuiltinCall { builtin: BuiltinFunction, args: Vec<TypedExpr> },
    EnumVariantConstruct {
        enum_name: String,
        variant: String,
        discriminant: u32,
        fields: Vec<(String, TypedExpr)>,
        enum_type: Box<Ty>,
    },
    EnumLiteral { enum_name: String, variant: String, discriminant: u32 },
    Binary { left: Box<TypedExpr>, operator: BinOp, right: Box<TypedExpr> },
    ShortCircuit { left: Box<TypedExpr>, operator: LogicalOp, right: Box<TypedExpr> },
    Call { callee: Identifier, args: Vec<TypedExpr> },
    FieldAccess { object: Box<TypedExpr>, field: String, field_index: usize },
    StructConstruct { struct_name: String, fields: Vec<(String, TypedExpr)> },
    AddressOf(Box<TypedExpr>),
    Deref(Box<TypedExpr>),
    Cast { expr: Box<TypedExpr>, target_type: Ty },
    IndexAccess { object: Box<TypedExpr>, index: Box<TypedExpr> },
    ArrayLiteral { elements: Vec<TypedExpr> },
    QualifiedAccess { module: String, name: Identifier },
}

#[derive(Debug)]
pub struct TypedBinding {
    pub name: Identifier,
    pub ty: Ty,
    pub init: Option<TypedExpr>,
    pub mutable: bool,
}

/// The values of a `return`.
#[derive(Debug)]
pub struct TypedReturn {
    pub values: Vec<TypedExpr>,
}

impl TypedReturn {
    /// The first returned value, if any.
    pub fn first(&self) -> (r: Option<&TypedExpr>)
        ensures
            r matches Some(e) ==> self.values.len() > 0 && *e == self.values@[0],
            r is None <==> self.values.len() == 0,
    {
        if self.values.len() > 0 {
            Some(&self.values[0])
        } else {
            None
        }
    }
}

#[derive(Debug)]
pub struct TypedIf {
    pub cond: TypedExpr,
    pub then_branch: Vec<TypedStatement>,
    pub else_branch: Option<Vec<TypedStatement>>,
}

#[derive(Debug)]
pub enum TypedPattern {
    EnumVariant { variant: String, discriminant: u32, binding: Option<Identifier>, payload_ty: Option<Ty> },
    Wildcard,
}

#[derive(Debug)]
pub struct TypedSwitchArm {
    pub pattern: TypedPattern,
    pub body: Vec<TypedStatement>,
}

#[derive(Debug)]
pub enum TypedStatement {
    Binding(TypedBinding),
    MultiBinding { bindings: Vec<TypedBinding>, values: Vec<TypedExpr> },
    Assign { name: Identifier, expr: TypedExpr },
    FieldAssign { object: TypedExpr, field: String, field_index: usize, expr: TypedExpr },
    DerefAssign { pointer: TypedExpr, expr: TypedExpr },
    IndexAssign { object: TypedExpr, index: TypedExpr, expr: TypedExpr },
    MultiAssign { targets: Vec<TypedExpr>, values: Vec<TypedExpr> },
    Expr(TypedExpr),
    Return(Option<TypedReturn>),
    If(TypedIf),
    For { init: Option<Box<TypedStatement>>, cond: Option<TypedExpr>, post: Option<Box<TypedStatement>>, body: Vec<TypedStatement> },
    Break,
    Continue,
    Defer(Box<TypedStatement>),
    Switch { subject: TypedExpr, arms: Vec<TypedSwitchArm> },
}

#[derive(Debug)]
pub struct TypedFunction {
    pub name: Identifier,
    pub params: Vec<(Identifier, Ty)>,
    pub return_type: Ty,
    pub body: Vec<TypedStatement>,
    pub is_extern: bool,
    pub is_variadic: bool,
}

#[derive(Debug)]
pub struct TypedTypeDecl {
    pub name: Identifier,
    pub ty: Ty,
}

/// A module-level constant.
#[derive(Debug)]
pub struct TypedConst {
    pub name: Identifier,
    pub ty: Ty,
    pub value: TypedExpr,
}

#[derive(Debug)]
pub enum TypedDecl {
    Function(TypedFunction),
    Type(TypedTypeDecl),
    Const(TypedConst),
}

/// A generic function kept as syntax until it is called with type arguments.
#[derive(Debug)]
pub struct GenericFunctionTemplate {
    pub name: Identifier,
    pub ast_decl: FunctionDeclaration,
    /// Indices of the `type`-typed parameters.
    pub comptime_params: Vec<usize>,
}

#[derive(Debug)]
pub enum TypedSymbol {
    Binding(TypedBinding),
    Type(Ty),
    Function(TypedFunction),
    GenericFunction(GenericFunctionTemplate),
}

/// An analyzed module: what it exports and the declarations to emit for it.
#[derive(Debug)]
pub struct TypedModule {
    pub name: String,
    pub path: Vec<Identifier>,
    /// Exported symbols; a later entry shadows an earlier one with the same name.
    pub exports: Vec<(Identifier, TypedSymbol)>,
    pub declarations: Vec<TypedDecl>,
}

#[derive(Debug)]
pub struct TypedProgram {
    pub symbol_table: SymbolTable,
    pub declarations: Vec<TypedDecl>,
    pub imported_declarations: Vec<TypedDecl>,
}

// ---------------------------------------------------------------------------
// Symbol table
// ---------------------------------------------------------------------------

#[derive(Debug, Clone, Copy, PartialEq, Eq, Structural)]
pub enum ScopeKind {
    Global,
    Function,
    Block,
}

#[derive(Debug)]
pub struct Scope {
    pub kind: ScopeKind,
    /// Symbols in insertion order; a later entry shadows an earlier one.
    pub symbols: Vec<(Identifier, TypedSymbol)>,
}

/// Nested scopes (the global scope first) and the imported modules by local name.
#[derive(Debug)]
pub struct SymbolTable {
    pub scopes: Vec<Scope>,
    pub modules: Vec<(String, TypedModule)>,
}

/// The index of the last entry named `name`, if any.
pub open spec fn find_last<T>(entries: Seq<(Identifier, T)>, name: Seq<char>) -> Option<int>
    decreases entries.len(),
{
    if entries.len() == 0 {
        None
    } else if entries.last().0@ == name {
        Some(entries.len() - 1)
    } else {
        find_last(entries.drop_last(), name)
    }
}

pub proof fn lemma_find_last<T>(entries: Seq<(Identifier, T)>, name: Seq<char>)
    ensures
        find_last(entries, name) matches Some(i) ==> 0 <= i < entries.len() && entries[i].0@ == name
            && forall|j: int| i < j < entries.len() ==> entries[j].0@ != name,
        find_last(entries, name) is None ==> forall|j: int| 0 <= j < entries.len() ==> entries[j].0@ != name,
    decreases entries.len(),
{
    if entries.len() > 0 {
        let prefix = entries.drop_last();
        lemma_find_last(prefix, name);
        assert forall|j: int| 0 <= j < prefix.len() implies prefix[j] == entries[j] by {}
    }
}

/// The symbol `name` resolves to: the last binding of it in the innermost
/// scope that has one.
pub open spec fn lookup_in(scopes: Seq<Scope>, name: Seq<char>) -> Option<TypedSymbol>
    decreases scopes.len(),
{
    if scopes.len() == 0 {
        None
    } else {
        match find_last(scopes.last().symbols@, name) {
            Some(i) => Some(scopes.last().symbols@[i].1),
            None => lookup_in(scopes.drop_last(), name),
        }
    }
}

/// The index of the last module registered under `name`, if any.
pub open spec fn module_index(modules: Seq<(String, TypedModule)>, name: Seq<char>) -> Option<int>
    decreases modules.len(),
{
    if modules.len() == 0 {
        None
    } else if modules.last().0@ == name {
        Some(modules.len() - 1)
    } else {
        module_index(modules.drop_last(), name)
    }
}

/// Search `entries` from the end for `name`.
pub fn find_last_index<T>(entries: &Vec<(Identifier, T)>, name: &Identifier) -> (r: Option<usize>)
    ensures
        r matches Some(i) ==> i < entries.len() && entries@[i as int].0@ == name@,
        match r {
            Some(i) => find_last(entries@, name@) == Some(i as int),
            None => find_last(entries@, name@) is None,
        },
{
    let mut i = entries.len();
    assert(entries@.subrange(0, i as int) =~= entries@);
    while i > 0
        invariant
            i <= entries.len(),
            find_last(entries@, name@) == find_last(entries@.subrange(0, i as int), name@),
        decreases i,
    {
        assert(entries@.subrange(0, i as int).drop_last() =~= entries@.subrange(0, i - 1));
        if entries[i - 1].0.value == name.value {
            proof {
                lemma_find_last(entries@, name@);
            }
            return Some(i - 1);
        }
        i = i - 1;
    }
    None
}

impl SymbolTable {
    /// A table holding one empty global scope and no modules.
    pub fn new() -> (t: SymbolTable)
        ensures
            t.scopes.len() == 1,
            t.scopes@[0].symbols.len() == 0,
            t.modules.len() == 0,
    {
        let mut scopes: Vec<Scope> = Vec::new();
        scopes.push(Scope { kind: ScopeKind::Global, symbols: Vec::new() });
        SymbolTable { scopes, modules: Vec::new() }
    }

    pub fn enter_scope(&mut self, kind: ScopeKind)
        ensures
            final(self).scopes@ == old(self).scopes@.push(Scope { kind, symbols: final(self).scopes@.last().symbols }),
            final(self).scopes@.last().symbols.len() == 0,
            final(self).modules == old(self).modules,
    {
        self.scopes.push(Scope { kind, symbols: Vec::new() });
    }

    /// Leave every scope entered beyond the first `depth` ones.
    pub fn leave_to(&mut self, depth: usize)
        ensures
            old(self).scopes.len() > depth ==> final(self).scopes@ == old(self).scopes@.subrange(0, depth as int),
            old(self).scopes.len() <= depth ==> final(self).scopes@ == old(self).scopes@,
            final(self).modules == old(self).modules,
    {
        while self.scopes.len() > depth
            invariant
                self.scopes.len() >= depth ==> self.scopes@ == old(self).scopes@.subrange(0, self.scopes.len() as int),
                old(self).scopes.len() <= depth ==> self.scopes@ == old(self).scopes@,
                self.scopes.len() <= old(self).scopes.len(),
                old(self).scopes.len() > depth ==> self.scopes.len() >= depth,
                self.modules == old(self).modules,
            decreases self.scopes.len(),
        {
            let _ = self.scopes.pop();
        }
    }

    /// Leave the innermost scope; the global scope is never left.
    pub fn exit_scope(&mut self)
        ensures
            old(self).scopes.len() > 1 ==> final(self).scopes@ == old(self).scopes@.drop_last(),
            old(self).scopes.len() <= 1 ==> final(self).scopes@ == old(self).scopes@,
            final(self).modules == old(self).modules,
    {
        if self.scopes.len() > 1 {
            let _ = self.scopes.pop();
        }
    }

    /// Bind `name` in the innermost scope (shadowing any earlier binding).
    pub fn insert(&mut self, name: Identifier, symbol: TypedSymbol)
        ensures
            old(self).scopes.len() > 0 ==> final(self).scopes.len() == old(self).scopes.len()
                && final(self).scopes@.drop_last() == old(self).scopes@.drop_last()
                && final(self).scopes@.last().kind == old(self).scopes@.last().kind
                && final(self).scopes@.last().symbols@ == old(self).scopes@.last().symbols@.push((name, symbol))
                && lookup_in(final(self).scopes@, name@) == Some(symbol),
            old(self).scopes.len() == 0 ==> final(self).scopes@ == old(self).scopes@,
            final(self).modules == old(self).modules,
    {
        let n = self.scopes.len();
        if n == 0 {
            return;
        }
        let ghost old_scopes = self.scopes@;
        let mut last = self.scopes.pop().unwrap();
        let ghost old_last = last;
        last.symbols.push((name, symbol));
        proof {
            assert(last.symbols@.drop_last() =~= old_last.symbols@);
        }
        self.scopes.push(last);
        proof {
            assert(self.scopes@.last().symbols@.last().0@ == name@);
            assert(self.scopes@.drop_last() =~= old_scopes.drop_last());
        }
    }

    /// The symbol `name` resolves to.
    pub fn lookup(&self, name: &Identifier) -> (r: Option<&TypedSymbol>)
        ensures
            match r {
                Some(s) => lookup_in(self.scopes@, name@) == Some(*s),
                None => lookup_in(self.scopes@, name@) is None,
            },
    {
        let mut k = self.scopes.len();
        assert(self.scopes@.subrange(0, k as int) =~= self.scopes@);
        while k > 0
            invariant
                k <= self.scopes.len(),
                lookup_in(self.scopes@, name@) == lookup_in(self.scopes@.subrange(0, k as int), name@),
            decreases k,
        {
            assert(self.scopes@.subrange(0, k as int).drop_last() =~= self.scopes@.subrange(0, k - 1));
            match find_last_index(&self.scopes[k - 1].symbols, name) {
                Some(i) => {
                    proof {
                        lemma_find_last(self.scopes@[k - 1].symbols@, name@);
                    }
                    return Some(&self.scopes[k - 1].symbols[i].1);
                },
                None => {},
            }
            k = k - 1;
        }
        None
    }

    /// Register an imported module under its local name.
    pub fn insert_module(&mut self, name: String, module: TypedModule)
        ensures
            final(self).scopes == old(self).scopes,
            final(self).modules@ == old(self).modules@.push((name, module)),
    {
        self.modules.push((name, module));
    }

    /// The module registered under `name` (the latest registration wins).
    pub fn lookup_module(&self, name: &str) -> (r: Option<&TypedModule>)
        ensures
            match r {
                Some(m) => module_index(self.modules@, name@) matches Some(i) && 0 <= i < self.modules.len()
                    && self.modules@[i].0@ == name@ && self.modules@[i].1 == *m,
                None => module_index(self.modules@, name@) is None,
            },
            r matches Some(m) ==> exists|i: int| 0 <= i < self.modules.len() && self.modules@[i].0@ == name@
                && self.modules@[i].1 == *m,
            r is None ==> forall|i: int| 0 <= i < self.modules.len() ==> self.modules@[i].0@ != name@,
    {
        let mut i = self.modules.len();
        assert(self.modules@.subrange(0, i as int) =~= self.modules@);
        while i > 0
            invariant
                i <= self.modules.len(),
                forall|j: int| i <= j < self.modules.len() ==> self.modules@[j].0@ != name@,
                module_index(self.modules@, name@) == module_index(self.modules@.subrange(0, i as int), name@),
            decreases i,
        {
            assert(self.modules@.subrange(0, i as int).drop_last() =~= self.modules@.subrange(0, i - 1));
            if self.modules[i - 1].0.as_str().unicode_len() == name.unicode_len() && str_eq(self.modules[i - 1].0.as_str(), name) {
                return Some(&self.modules[i - 1].1);
            }
            i = i - 1;
        }
        None
    }

    /// The symbols of the global scope.
    pub fn global_symbols(&self) -> (r: &Vec<(Identifier, TypedSymbol)>)
        requires
            self.scopes.len() > 0,
        ensures
            *r == self.scopes@[0].symbols,
    {
        &self.scopes[0].symbols
    }

    /// The imported modules, in registration order.
    pub fn modules(&self) -> (r: &Vec<(String, TypedModule)>)
        ensures
            *r == self.modules,
    {
        &self.modules
    }
}

/// Character-wise equality of two string slices.
pub fn str_eq(a: &str, b: &str) -> (r: bool)
    ensures
        r == (a@ == b@),
{
    let n = a.unicode_len();
    if n != b.unicode_len() {
        return false;
    }
    let mut i: usize = 0;
    while i < n
        invariant
            n == a@.len(),
            n == b@.len(),
            0 <= i <= n,
            forall|j: int| 0 <= j < i ==> a@[j] == b@[j],
        decreases n - i,
    {
        if a.get_char(i) != b.get_char(i) {
            return false;
        }
        i = i + 1;
    }
    assert(a@ =~= b@);
    true
}


// ---------------------------------------------------------------------------
// Copies of typed trees
// ---------------------------------------------------------------------------

/// Two typed expressions are the same tree: the same types (as views), forms,
/// names and literals throughout.
pub open spec fn same_texpr(a: TypedExpr, b: TypedExpr) -> bool
    decreases a,
{
    proof { assert(decreases_to!(a => a.expression)); }
    a.inferred_type@ == b.inferred_type@ && same_tkind(a.expression, b.expression)
}

/// `same_texpr` on the forms of two typed expressions.
pub open spec fn same_tkind(a: TypedExprKind, b: TypedExprKind) -> bool
    decreases a,
{
    match (a, b) {
        (TypedExprKind::LiteralInt { value: x }, TypedExprKind::LiteralInt { value: y }) => x == y,
        (TypedExprKind::LiteralFloat { value: x }, TypedExprKind::LiteralFloat { value: y }) => x == y,
        (TypedExprKind::LiteralBool(x), TypedExprKind::LiteralBool(y)) => x == y,
        (TypedExprKind::LiteralString { value: x }, TypedExprKind::LiteralString { value: y }) => x == y,
        (TypedExprKind::Null, TypedExprKind::Null) => true,
        (TypedExprKind::Identifier(x), TypedExprKind::Identifier(y)) => x == y,
        (TypedExprKind::ComptimeType(x), TypedExprKind::ComptimeType(y)) => x@ == y@,
        (TypedExprKind::BuiltinCall { builtin: b1, args: a1 }, TypedExprKind::BuiltinCall { builtin: b2, args: a2 }) => b1 == b2
            && a1.len() == a2.len() && forall|i: int| 0 <= i < a1.len() ==> same_texpr(a1@[i], #[trigger] a2@[i]),
        (TypedExprKind::EnumVariantConstruct { enum_name: n1, variant: v1, discriminant: d1, fields: f1, enum_type: t1 },
            TypedExprKind::EnumVariantConstruct { enum_name: n2, variant: v2, discriminant: d2, fields: f2, enum_type: t2 }) =>
            n1 == n2 && v1 == v2 && d1 == d2 && (*t1)@ == (*t2)@ && f1.len() == f2.len() && forall|i: int| 0 <= i < f1.len()
                ==> f1@[i].0 == (#[trigger] f2@[i]).0 && same_texpr(f1@[i].1, f2@[i].1),
        (TypedExprKind::EnumLiteral { enum_name: n1, variant: v1, discriminant: d1 }, TypedExprKind::EnumLiteral {
            enum_name: n2,
            variant: v2,
            discriminant: d2,
        }) => n1 == n2 && v1 == v2 && d1 == d2,
        (TypedExprKind::Binary { left: l1, operator: o1, right: r1 }, TypedExprKind::Binary { left: l2, operator: o2, right: r2 }) =>
            o1 == o2 && same_texpr(*l1, *l2) && same_texpr(*r1, *r2),
        (TypedExprKind::ShortCircuit { left: l1, operator: o1, right: r1 }, TypedExprKind::ShortCircuit {
            left: l2,
            operator: o2,
            right: r2,
        }) => o1 == o2 && same_texpr(*l1, *l2) && same_texpr(*r1, *r2),
        (TypedExprKind::Call { callee: c1, args: a1 }, TypedExprKind::Call { callee: c2, args: a2 }) => c1 == c2
            && a1.len() == a2.len() && forall|i: int| 0 <= i < a1.len() ==> same_texpr(a1@[i], #[trigger] a2@[i]),
        (TypedExprKind::FieldAccess { object: o1, field: f1, field_index: i1 }, TypedExprKind::FieldAccess {
            object: o2,
            field: f2,
            field_index: i2,
        }) => f1 == f2 && i1 == i2 && same_texpr(*o1, *o2),
        (TypedExprKind::StructConstruct { struct_name: n1, fields: f1 }, TypedExprKind::StructConstruct { struct_name: n2, fields: f2 }) =>
            n1 == n2 && f1.len() == f2.len() && forall|i: int| 0 <= i < f1.len() ==> f1@[i].0 == (#[trigger] f2@[i]).0
                && same_texpr(f1@[i].1, f2@[i].1),
        (TypedExprKind::AddressOf(x), TypedExprKind::AddressOf(y)) => same_texpr(*x, *y),
        (TypedExprKind::Deref(x), TypedExprKind::Deref(y)) => same_texpr(*x, *y),
        (TypedExprKind::Cast { expr: e1, target_type: t1 }, TypedExprKind::Cast { expr: e2, target_type: t2 }) => t1@ == t2@
            && same_texpr(*e1, *e2),
        (TypedExprKind::IndexAccess { object: o1, index: i1 }, TypedExprKind::IndexAccess { object: o2, index: i2 }) =>
            same_texpr(*o1, *o2) && same_texpr(*i1, *i2),
        (TypedExprKind::ArrayLiteral { elements: a1 }, TypedExprKind::ArrayLiteral { elements: a2 }) => a1.len() == a2.len()
            && forall|i: int| 0 <= i < a1.len() ==> same_texpr(a1@[i], #[trigger] a2@[i]),
        (TypedExprKind::QualifiedAccess { module: m1, name: n1 }, TypedExprKind::QualifiedAccess { module: m2, name: n2 }) =>
            m1 == m2 && n1 == n2,
        _ => false,
    }
}

impl Clone for TypedExpr {
    fn clone(&self) -> (r: Self)
        ensures
            same_texpr(*self, r),
        decreases self, 0nat,
    {
        TypedExpr { inferred_type: self.inferred_type.copy(), expression: clone_typed_kind(&self.expression) }
    }
}

fn clone_typed_kind(k: &TypedExprKind) -> (r: TypedExprKind)
    ensures
        same_tkind(*k, r),
    decreases k, 0nat,
{
    match k {
        TypedExprKind::LiteralInt { value } => TypedExprKind::LiteralInt { value: *value },
        TypedExprKind::LiteralFloat { value } => TypedExprKind::LiteralFloat { value: value.clone() },
        TypedExprKind::LiteralBool(b) => TypedExprKind::LiteralBool(*b),
        TypedExprKind::LiteralString { value } => TypedExprKind::LiteralString { value: value.clone() },
        TypedExprKind::Null => TypedExprKind::Null,
        TypedExprKind::Identifier(id) => TypedExprKind::Identifier(id.clone()),
        TypedExprKind::ComptimeType(t) => TypedExprKind::ComptimeType(t.copy()),
        TypedExprKind::BuiltinCall { builtin, args } => {
            proof { assert(decreases_to!(args => args@)); }
            TypedExprKind::BuiltinCall { builtin: *builtin, args: clone_typed_exprs(args) }
        },
        TypedExprKind::EnumVariantConstruct { enum_name, variant, discriminant, fields, enum_type } => {
            proof { assert(decreases_to!(fields => fields@)); }
            TypedExprKind::EnumVariantConstruct {
                enum_name: enum_name.clone(),
                variant: variant.clone(),
                discriminant: *discriminant,
                fields: clone_named_typed_exprs(fields),
                enum_type: Box::new((**enum_type).copy()),
            }
        },
        TypedExprKind::EnumLiteral { enum_name, variant, discriminant } => TypedExprKind::EnumLiteral {
            enum_name: enum_name.clone(),
            variant: variant.clone(),
            discriminant: *discriminant,
        },
        TypedExprKind::Binary { left, operator, right } => TypedExprKind::Binary {
            left: Box::new((**left).clone()),
            operator: *operator,
            right: Box::new((**right).clone()),
        },
        TypedExprKind::ShortCircuit { left, operator, right } => TypedExprKind::ShortCircuit {
            left: Box::new((**left).clone()),
            operator: *operator,
            right: Box::new((**right).clone()),
        },
        TypedExprKind::Call { callee, args } => {
            proof { assert(decreases_to!(args => args@)); }
            TypedExprKind::Call { callee: callee.clone(), args: clone_typed_exprs(args) }
        },
        TypedExprKind::FieldAccess { object, field, field_index } => TypedExprKind::FieldAccess {
            object: Box::new((**object).clone()),
            field: field.clone(),
            field_index: *field_index,
        },
        TypedExprKind::StructConstruct { struct_name, fields } => {
            proof { assert(decreases_to!(fields => fields@)); }
            TypedExprKind::StructConstruct { struct_name: struct_name.clone(), fields: clone_named_typed_exprs(fields) }
        },
        TypedExprKind::AddressOf(e) => TypedExprKind::AddressOf(Box::new((**e).clone())),
        TypedExprKind::Deref(e) => TypedExprKind::Deref(Box::new((**e).clone())),
        TypedExprKind::Cast { expr, target_type } => TypedExprKind::Cast {
            expr: Box::new((**expr).clone()),
            target_type: target_type.copy(),
        },
        TypedExprKind::IndexAccess { object, index } => TypedExprKind::IndexAccess {
            object: Box::new((**object).clone()),
            index: Box::new((**index).clone()),
        },
        TypedExprKind::ArrayLiteral { elements } => {
            proof { assert(decreases_to!(elements => elements@)); }
            TypedExprKind::ArrayLiteral { elements: clone_typed_exprs(elements) }
        },
        TypedExprKind::QualifiedAccess { module, name } => TypedExprKind::QualifiedAccess {
            module: module.clone(),
            name: name.clone(),
        },
    }
}

/// A copy of each typed expression, in order.
pub fn clone_typed_exprs(v: &Vec<TypedExpr>) -> (r: Vec<TypedExpr>)
    ensures
        r.len() == v.len(),
        forall|i: int| 0 <= i < v.len() ==> same_texpr(v@[i], #[trigger] r@[i]),
    decreases v@, 0nat,
{
    let mut out: Vec<TypedExpr> = Vec::new();
    let mut i: usize = 0;
    while i < v.len()
        invariant
            0 <= i <= v.len(),
            out.len() == i,
            forall|j: int| 0 <= j < i ==> same_texpr(v@[j], #[trigger] out@[j]),
        decreases v.len() - i,
    {
        proof { assert(decreases_to!(v@ => v@[i as int])); }
        out.push(v[i].clone());
        i = i + 1;
    }
    out
}

fn clone_named_typed_exprs(v: &Vec<(String, TypedExpr)>) -> (r: Vec<(String, TypedExpr)>)
    ensures
        r.len() == v.len(),
        forall|i: int| 0 <= i < v.len() ==> v@[i].0 == (#[trigger] r@[i]).0 && same_texpr(v@[i].1, r@[i].1),
    decreases v@, 0nat,
{
    let mut out: Vec<(String, TypedExpr)> = Vec::new();
    let mut i: usize = 0;
    while i < v.len()
        invariant
            0 <= i <= v.len(),
            out.len() == i,
            forall|j: int| 0 <= j < i ==> v@[j].0 == (#[trigger] out@[j]).0 && same_texpr(v@[j].1, out@[j].1),
        decreases v.len() - i,
    {
        proof { assert(decreases_to!(v@ => v@[i as int])); assert(decreases_to!(v@[i as int] => v@[i as int].1)); }
        out.push((v[i].0.clone(), v[i].1.clone()));
        i = i + 1;
    }
    out
}

fn clone_opt_box_tstmt(s: &Option<Box<TypedStatement>>) -> (r: Option<Box<TypedStatement>>)
    ensures
        same_opt_box_tstmt(*s, r),
    decreases s, 0nat,
{
    match s {
        Some(b) => Some(Box::new((**b).clone())),
        None => None,
    }
}

fn clone_opt_typed_expr(e: &Option<TypedExpr>) -> (r: Option<TypedExpr>)
    ensures
        r.is_some() == e.is_some(),
        same_opt_texpr(*e, r),
{
    match e {
        Some(x) => Some(x.clone()),
        None => None,
    }
}

impl Clone for TypedBinding {
    fn clone(&self) -> (r: Self)
        ensures
            r.name@ == self.name@,
            r.ty@ == self.ty@,
            r.mutable == self.mutable,
            r.init.is_some() == self.init.is_some(),
            same_tbinding(*self, r),
    {
        TypedBinding {
            name: self.name.copy(),
            ty: self.ty.copy(),
            init: clone_opt_typed_expr(&self.init),
            mutable: self.mutable,
        }
    }
}

impl Clone for TypedStatement {
    fn clone(&self) -> (r: Self)
        ensures
            same_tstmt(*self, r),
        decreases self, 0nat,
    {
        match self {
            TypedStatement::Binding(b) => TypedStatement::Binding(b.clone()),
            TypedStatement::MultiBinding { bindings, values } => {
                let mut bs: Vec<TypedBinding> = Vec::new();
                let mut i: usize = 0;
                while i < bindings.len()
                    invariant
                        0 <= i <= bindings.len(),
                        bs.len() == i,
                        forall|j: int| 0 <= j < i ==> same_tbinding(bindings@[j], #[trigger] bs@[j]),
                    decreases bindings.len() - i,
                {
                    bs.push(bindings[i].clone());
                    i = i + 1;
                }
                TypedStatement::MultiBinding { bindings: bs, values: clone_typed_exprs(values) }
            },
            TypedStatement::Assign { name, expr } => TypedStatement::Assign { name: name.clone(), expr: expr.clone() },
            TypedStatement::FieldAssign { object, field, field_index, expr } => TypedStatement::FieldAssign {
                object: object.clone(),
                field: field.clone(),
                field_index: *field_index,
                expr: expr.clone(),
            },
            TypedStatement::DerefAssign { pointer, expr } => TypedStatement::DerefAssign {
                pointer: pointer.clone(),
                expr: expr.clone(),
            },
            TypedStatement::IndexAssign { object, index, expr } => TypedStatement::IndexAssign {
                object: object.clone(),
                index: index.clone(),
                expr: expr.clone(),
            },
            TypedStatement::MultiAssign { targets, values } => TypedStatement::MultiAssign {
                targets: clone_typed_exprs(targets),
                values: clone_typed_exprs(values),
            },
            TypedStatement::Expr(e) => TypedStatement::Expr(e.clone()),
            TypedStatement::Return(r) => TypedStatement::Return(match r {
                Some(ret) => Some(TypedReturn { values: clone_typed_exprs(&ret.values) }),
                None => None,
            }),
            TypedStatement::If(ti) => {
                proof {
                    assert(decreases_to!(ti => ti.then_branch));
                    assert(decreases_to!(ti => ti.else_branch));
                }
                TypedStatement::If(TypedIf {
                    cond: ti.cond.clone(),
                    then_branch: clone_typed_stmts(&ti.then_branch),
                    else_branch: match &ti.else_branch {
                        Some(v) => Some(clone_typed_stmts(v)),
                        None => None,
                    },
                })
            },
            TypedStatement::For { init, cond, post, body } => TypedStatement::For {
                init: clone_opt_box_tstmt(init),
                cond: clone_opt_typed_expr(cond),
                post: clone_opt_box_tstmt(post),
                body: clone_typed_stmts(body),
            },
            TypedStatement::Break => TypedStatement::Break,
            TypedStatement::Continue => TypedStatement::Continue,
            TypedStatement::Defer(inner) => TypedStatement::Defer(Box::new((**inner).clone())),
            TypedStatement::Switch { subject, arms } => TypedStatement::Switch {
                subject: subject.clone(),
                arms: clone_arms(arms),
            },
        }
    }
}

/// Two typed patterns match the same variant, binding the same name to the
/// same payload type (as views).
pub open spec fn same_pattern(a: TypedPattern, b: TypedPattern) -> bool {
    match (a, b) {
        (TypedPattern::EnumVariant { variant: v1, discriminant: d1, binding: b1, payload_ty: p1 }, TypedPattern::EnumVariant {
            variant: v2,
            discriminant: d2,
            binding: b2,
            payload_ty: p2,
        }) => v1 == v2 && d1 == d2 && b1 == b2 && match (p1, p2) {
            (Some(x), Some(y)) => x@ == y@,
            (None, None) => true,
            _ => false,
        },
        (TypedPattern::Wildcard, TypedPattern::Wildcard) => true,
        _ => false,
    }
}

pub open spec fn same_opt_texpr(a: Option<TypedExpr>, b: Option<TypedExpr>) -> bool {
    match (a, b) {
        (Some(x), Some(y)) => same_texpr(x, y),
        (None, None) => true,
        _ => false,
    }
}

pub open spec fn same_texprs(a: Seq<TypedExpr>, b: Seq<TypedExpr>) -> bool {
    a.len() == b.len() && forall|i: int| 0 <= i < a.len() ==> same_texpr(a[i], #[trigger] b[i])
}

/// Two bindings of the same name, type, mutability and initializer.
pub open spec fn same_tbinding(a: TypedBinding, b: TypedBinding) -> bool {
    a.name@ == b.name@ && a.ty@ == b.ty@ && a.mutable == b.mutable && same_opt_texpr(a.init, b.init)
}

/// Two typed statement lists are the same statement by statement.
pub open spec fn same_tstmts(a: Seq<TypedStatement>, b: Seq<TypedStatement>) -> bool
    decreases a,
{
    a.len() == b.len() && forall|i: int| 0 <= i < a.len() ==> same_tstmt(a[i], #[trigger] b[i])
}

pub open spec fn same_opt_box_tstmt(a: Option<Box<TypedStatement>>, b: Option<Box<TypedStatement>>) -> bool
    decreases a,
{
    match (a, b) {
        (Some(x), Some(y)) => same_tstmt(*x, *y),
        (None, None) => true,
        _ => false,
    }
}

/// Two typed `switch` arms match the same pattern and have the same body.
pub open spec fn same_tarm(a: TypedSwitchArm, b: TypedSwitchArm) -> bool
    decreases a,
{
    proof { assert(decreases_to!(a => a.body)); assert(decreases_to!(a.body => a.body@)); }
    same_pattern(a.pattern, b.pattern) && same_tstmts(a.body@, b.body@)
}

/// Two typed statements of the same form with the same parts.
pub open spec fn same_tstmt(a: TypedStatement, b: TypedStatement) -> bool
    decreases a,
{
    match (a, b) {
        (TypedStatement::Binding(x), TypedStatement::Binding(y)) => same_tbinding(x, y),
        (TypedStatement::MultiBinding { bindings: b1, values: v1 }, TypedStatement::MultiBinding { bindings: b2, values: v2 }) =>
            b1.len() == b2.len() && (forall|i: int| 0 <= i < b1.len() ==> same_tbinding(b1@[i], #[trigger] b2@[i]))
            && same_texprs(v1@, v2@),
        (TypedStatement::Assign { name: n1, expr: e1 }, TypedStatement::Assign { name: n2, expr: e2 }) => n1 == n2 && same_texpr(e1, e2),
        (TypedStatement::FieldAssign { object: o1, field: f1, field_index: k1, expr: e1 }, TypedStatement::FieldAssign {
            object: o2,
            field: f2,
            field_index: k2,
            expr: e2,
        }) => same_texpr(o1, o2) && f1@ == f2@ && k1 == k2 && same_texpr(e1, e2),
        (TypedStatement::DerefAssign { pointer: p1, expr: e1 }, TypedStatement::DerefAssign { pointer: p2, expr: e2 }) =>
            same_texpr(p1, p2) && same_texpr(e1, e2),
        (TypedStatement::IndexAssign { object: o1, index: i1, expr: e1 }, TypedStatement::IndexAssign { object: o2, index: i2, expr: e2 }) =>
            same_texpr(o1, o2) && same_texpr(i1, i2) && same_texpr(e1, e2),
        (TypedStatement::MultiAssign { targets: t1, values: v1 }, TypedStatement::MultiAssign { targets: t2, values: v2 }) =>
            same_texprs(t1@, t2@) && same_texprs(v1@, v2@),
        (TypedStatement::Expr(x), TypedStatement::Expr(y)) => same_texpr(x, y),
        (TypedStatement::Return(r1), TypedStatement::Return(r2)) => match (r1, r2) {
            (Some(x), Some(y)) => same_texprs(x.values@, y.values@),
            (None, None) => true,
            _ => false,
        },
        (TypedStatement::If(t1), TypedStatement::If(t2)) => {
            proof {
                assert(decreases_to!(t1 => t1.then_branch));
                assert(decreases_to!(t1.then_branch => t1.then_branch@));
            }
            same_texpr(t1.cond, t2.cond) && same_tstmts(t1.then_branch@, t2.then_branch@) && match (t1.else_branch, t2.else_branch) {
                (Some(x), Some(y)) => same_tstmts(x@, y@),
                (None, None) => true,
                _ => false,
            }
        },
        (TypedStatement::For { init: i1, cond: c1, post: p1, body: b1 }, TypedStatement::For { init: i2, cond: c2, post: p2, body: b2 }) =>
            same_opt_box_tstmt(i1, i2) && same_opt_texpr(c1, c2) && same_opt_box_tstmt(p1, p2) && same_tstmts(b1@, b2@),
        (TypedStatement::Break, TypedStatement::Break) => true,
        (TypedStatement::Continue, TypedStatement::Continue) => true,
        (TypedStatement::Defer(x), TypedStatement::Defer(y)) => same_tstmt(*x, *y),
        (TypedStatement::Switch { subject: s1, arms: a1 }, TypedStatement::Switch { subject: s2, arms: a2 }) => same_texpr(s1, s2)
            && a1.len() == a2.len() && forall|i: int| 0 <= i < a1.len() ==> same_tarm(a1@[i], #[trigger] a2@[i]),
        _ => false,
    }
}

fn clone_arms(arms: &Vec<TypedSwitchArm>) -> (r: Vec<TypedSwitchArm>)
    ensures
        r.len() == arms.len(),
        forall|i: int| 0 <= i < arms.len() ==> same_tarm(arms@[i], #[trigger] r@[i]),
    decreases arms, 0nat,
{
    let mut out: Vec<TypedSwitchArm> = Vec::new();
    let mut i: usize = 0;
    while i < arms.len()
        invariant
            0 <= i <= arms.len(),
            out.len() == i,
            forall|j: int| 0 <= j < i ==> same_tarm(arms@[j], #[trigger] out@[j]),
        decreases arms.len() - i,
    {
        proof {
            assert(decreases_to!(arms => arms@));
            assert(decreases_to!(arms@ => arms@[i as int]));
            assert(decreases_to!(arms@[i as int] => arms@[i as int].body));
        }
        let pattern = match &arms[i].pattern {
            TypedPattern::EnumVariant { variant, discriminant, binding, payload_ty } => TypedPattern::EnumVariant {
                variant: variant.clone(),
                discriminant: *discriminant,
                binding: match binding {
                    Some(b) => Some(b.clone()),
                    None => None,
                },
                payload_ty: match payload_ty {
                    Some(t) => Some(t.copy()),
                    None => None,
                },
            },
            TypedPattern::Wildcard => TypedPattern::Wildcard,
        };
        out.push(TypedSwitchArm { pattern, body: clone_typed_stmts(&arms[i].body) });
        i = i + 1;
    }
    out
}

/// A copy of each typed statement, in order.
pub fn clone_typed_stmts(v: &Vec<TypedStatement>) -> (r: Vec<TypedStatement>)
    ensures
        r.len() == v.len(),
        same_tstmts(v@, r@),
    decreases v, 0nat,
{
    let mut out: Vec<TypedStatement> = Vec::new();
    let mut i: usize = 0;
    while i < v.len()
        invariant
            0 <= i <= v.len(),
            out.len() == i,
            forall|j: int| 0 <= j < i ==> same_tstmt(v@[j], #[trigger] out@[j]),
        decreases v.len() - i,
    {
        proof { assert(decreases_to!(v => v@)); assert(decreases_to!(v@ => v@[i as int])); }
        out.push(v[i].clone());
        i = i + 1;
    }
    out
}

fn copy_params(v: &Vec<(Identifier, Ty)>) -> (r: Vec<(Identifier, Ty)>)
    ensures
        r.len() == v.len(),
        forall|i: int| 0 <= i < v.len() ==> r@[i].0 == v@[i].0 && r@[i].1@ == v@[i].1@,
{
    let mut out: Vec<(Identifier, Ty)> = Vec::new();
    let mut i: usize = 0;
    while i < v.len()
        invariant
            0 <= i <= v.len(),
            out.len() == i,
            forall|j: int| 0 <= j < i ==> out@[j].0 == v@[j].0 && out@[j].1@ == v@[j].1@,
        decreases v.len() - i,
    {
        out.push((v[i].0.clone(), v[i].1.copy()));
        i = i + 1;
    }
    out
}

impl Clone for TypedFunction {
    fn clone(&self) -> (r: Self)
        ensures
            r.name == self.name,
            r.return_type@ == self.return_type@,
            r.params.len() == self.params.len(),
            forall|i: int| 0 <= i < self.params.len() ==> r.params@[i].0 == self.params@[i].0
                && r.params@[i].1@ == self.params@[i].1@,
            r.is_extern == self.is_extern,
            r.is_variadic == self.is_variadic,
            r.body.len() == self.body.len(),
    {
        TypedFunction {
            name: self.name.clone(),
            params: copy_params(&self.params),
            return_type: self.return_type.copy(),
            body: clone_typed_stmts(&self.body),
            is_extern: self.is_extern,
            is_variadic: self.is_variadic,
        }
    }
}

impl Clone for GenericFunctionTemplate {
    fn clone(&self) -> (r: Self)
        ensures
            r.name == self.name,
            r.comptime_params@ == self.comptime_params@,
    {
        GenericFunctionTemplate {
            name: self.name.clone(),
            ast_decl: self.ast_decl.clone(),
            comptime_params: self.comptime_params.clone(),
        }
    }
}

impl Clone for TypedSymbol {
    fn clone(&self) -> (r: Self)
        ensures
            (r is Binding) == (self is Binding),
            (r is Type) == (self is Type),
            (r is Function) == (self is Function),
            (r is GenericFunction) == (self is GenericFunction),
            self is Type ==> r->Type_0@ == self->Type_0@,
    {
        match self {
            TypedSymbol::Binding(b) => TypedSymbol::Binding(b.clone()),
            TypedSymbol::Type(t) => TypedSymbol::Type(t.copy()),
            TypedSymbol::Function(f) => TypedSymbol::Function(f.clone()),
            TypedSymbol::GenericFunction(g) => TypedSymbol::GenericFunction(g.clone()),
        }
    }
}

impl Clone for TypedDecl {
    fn clone(&self) -> (r: Self) {
        match self {
            TypedDecl::Function(f) => TypedDecl::Function(f.clone()),
            TypedDecl::Type(t) => TypedDecl::Type(TypedTypeDecl { name: t.name.clone(), ty: t.ty.copy() }),
            TypedDecl::Const(c) => TypedDecl::Const(TypedConst { name: c.name.clone(), ty: c.ty.copy(), value: c.value.clone() }),
        }
    }
}

/// A copy of each declaration, in order.
pub fn clone_decls(v: &Vec<TypedDecl>) -> (r: Vec<TypedDecl>)
    ensures
        r.len() == v.len(),
{
    let mut out: Vec<TypedDecl> = Vec::new();
    let mut i: usize = 0;
    while i < v.len()
        invariant
            0 <= i <= v.len(),
            out.len() == i,
        decreases v.len() - i,
    {
        out.push(v[i].clone());
        i = i + 1;
    }
    out
}

fn clone_symbols(v: &Vec<(Identifier, TypedSymbol)>) -> (r: Vec<(Identifier, TypedSymbol)>)
    ensures
        r.len() == v.len(),
        forall|i: int| 0 <= i < v.len() ==> r@[i].0 == v@[i].0,
{
    let mut out: Vec<(Identifier, TypedSymbol)> = Vec::new();
    let mut i: usize = 0;
    while i < v.len()
        invariant
            0 <= i <= v.len(),
            out.len() == i,
            forall|j: int| 0 <= j < i ==> out@[j].0 == v@[j].0,
        decreases v.len() - i,
    {
        out.push((v[i].0.clone(), v[i].1.clone()));
        i = i + 1;
    }
    out
}

impl Clone for TypedModule {
    fn clone(&self) -> (r: Self)
        ensures
            r.name == self.name,
            r.exports.len() == self.exports.len(),
            r.declarations.len() == self.declarations.len(),
    {
        TypedModule {
            name: self.name.clone(),
            path: self.path.clone(),
            exports: clone_symbols(&self.exports),
            declarations: clone_decls(&self.declarations),
        }
    }
}

impl Clone for SymbolTable {
    fn clone(&self) -> (r: Self)
        ensures
            r.scopes.len() == self.scopes.len(),
            r.modules.len() == self.modules.len(),
    {
        let mut scopes: Vec<Scope> = Vec::new();
        let mut i: usize = 0;
        while i < self.scopes.len()
            invariant
                0 <= i <= self.scopes.len(),
                scopes.len() == i,
            decreases self.scopes.len() - i,
        {
            scopes.push(Scope { kind: self.scopes[i].kind, symbols: clone_symbols(&self.scopes[i].symbols) });
            i = i + 1;
        }
        let mut modules: Vec<(String, TypedModule)> = Vec::new();
        let mut j: usize = 0;
        while j < self.modules.len()
            invariant
                0 <= j <= self.modules.len(),
                modules.len() == j,
            decreases self.modules.len() - j,
        {
            modules.push((self.modules[j].0.clone(), self.modules[j].1.clone()));
            j = j + 1;
        }
        SymbolTable { scopes, modules }
    }
}

} // verus!
