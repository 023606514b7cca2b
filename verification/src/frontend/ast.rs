//! The syntax tree produced by the parser.
use vstd::prelude::*;

use crate::diagnostics::Span;
use crate::frontend::analyze::types::{
    field_types_of, lemma_field_types_of, lemma_types_of, lemma_variant_types_of, type_of, types_of, variant_types_of,
};
use crate::frontend::tokens::{BuiltinFunction, BuiltinType, Identifier, Literal, Operator};

verus! {

/// A parsed module: its top-level declarations in source order.
#[derive(Debug)]
pub struct Ast {
    pub declarations: Vec<DeclarationNode>,
}

impl Ast {
    pub fn new() -> (a: Self)
        ensures
            a.declarations@.len() == 0,
    {
        Ast { declarations: Vec::new() }
    }
}

#[derive(Debug)]
pub enum DeclarationNode {
    ImportDeclaration(ImportDeclaration),
    FunctionDeclaration(FunctionDeclaration),
    TypeDeclaration(TypeDeclaration),
}

/// `import a::b`, `import a::b as c`, or `import a::b::{X, Y}`.
#[derive(Debug)]
pub struct ImportDeclaration {
    pub path: Vec<Identifier>,
    pub alias: Option<Identifier>,
    pub selective: Option<Vec<Identifier>>,
}

#[derive(Debug)]
pub struct TypeDeclaration {
    pub name: Identifier,
    pub expression: TypeExpression,
}

#[derive(Debug)]
pub struct FunctionDeclaration {
    pub signature: FunctionSignature,
    pub body: Option<FunctionBody>,
    pub is_extern: bool,
    pub is_variadic: bool,
}

#[derive(Debug)]
pub struct FunctionSignature {
    pub name: Identifier,
    pub parameters: Vec<FunctionParameter>,
    pub return_type: Option<TypeExpression>,
}

#[derive(Debug)]
pub struct FunctionParameter {
    pub parameter_name: Identifier,
    pub parameter_type: TypeExpression,
}

#[derive(Debug)]
pub struct FunctionBody {
    pub statements: Vec<Statement>,
}

/// A struct field or enum payload field: `label: type`.
#[derive(Debug)]
pub struct Field {
    pub label: Identifier,
    pub type_id: TypeExpression,
}

/// An enum variant, with its payload fields when it carries one.
#[derive(Debug)]
pub struct EnumVariant {
    pub name: Identifier,
    pub payload: Option<Vec<Field>>,
}

/// A syntax type expression together with the source position it starts on.
#[derive(Debug)]
pub struct TypeExpression {
    pub kind: TypeExpressionKind,
    pub span: Span,
}

impl TypeExpression {
    pub fn at(kind: TypeExpressionKind, span: Span) -> (t: Self)
        ensures
            t.kind == kind,
            t.span == span,
    {
        TypeExpression { kind, span }
    }
}

#[derive(Debug)]
pub enum TypeExpressionKind {
    Builtin(BuiltinType),
    Identifier(Identifier),
    Function { argument_types: Vec<TypeExpression>, return_type: Box<TypeExpression> },
    Tuple { elements: Vec<TypeExpression> },
    Pointer { pointed_type: Box<TypeExpression> },
    Struct { fields: Vec<Field> },
    Enum { variants: Vec<EnumVariant> },
    Array { element_type: Box<TypeExpression>, size: u64 },
    /// `T[]`: a slice of `T`.
    Slice { element_type: Box<TypeExpression> },
    QualifiedIdentifier { module: Identifier, name: Identifier },
    /// The `type` keyword used as a type annotation: the binding holds a
    /// compile-time type value.
    TypeKeyword,
}

/// An expression together with the source position it starts on.
#[derive(Debug)]
pub struct Expression {
    pub kind: ExpressionKind,
    pub span: Span,
}

impl Expression {
    pub fn at(kind: ExpressionKind, span: Span) -> (e: Self)
        ensures
            e.kind == kind,
            e.span == span,
    {
        Expression { kind, span }
    }
}

#[derive(Debug)]
pub enum ExpressionKind {
    Binary { left: Box<Expression>, operator: Operator, right: Box<Expression> },
    Unary { operator: Operator, expression: Box<Expression> },
    Literal(Literal),
    Identifier(Identifier),
    Grouping(Box<Expression>),
    Call { callee: Box<Expression>, args: Vec<Expression> },
    /// A call to a builtin function, e.g. `@concat(a, b)`.
    BuiltinCall { builtin: BuiltinFunction, args: Vec<Expression> },
    FieldAccess { object: Box<Expression>, field: Identifier },
    /// `e.&`
    AddressOf(Box<Expression>),
    /// `e.*`
    Dereference(Box<Expression>),
    StructConstruct { struct_name: Identifier, fields: Vec<(Identifier, Expression)> },
    Cast { expr: Box<Expression>, target_type: TypeExpression },
    /// `e.[i]`
    IndexAccess { object: Box<Expression>, index: Box<Expression> },
    /// `obj.[a..b]`, `obj.[a.=b]` (inclusive end), with omitted bounds as `None`.
    Slice {
        object: Box<Expression>,
        start: Option<Box<Expression>>,
        end: Option<Box<Expression>>,
        inclusive: bool,
    },
    ArrayLiteral { elements: Vec<Expression> },
    QualifiedAccess { module: Identifier, member: Identifier },
    /// A compile-time type value in expression position (a generic argument).
    TypeValue(TypeExpression),
    /// `Type.Variant { field: val, ... }`: an enum variant with its payload.
    EnumVariantConstruct { enum_name: Identifier, variant: Identifier, fields: Vec<(Identifier, Expression)> },
}

/// A statement together with the source position it starts on.
#[derive(Debug)]
pub struct Statement {
    pub kind: StatementKind,
    pub span: Span,
}

#[derive(Debug)]
pub enum StatementKind {
    VariableDeclaration(VariableDeclaration),
    ExpressionStatement(Expression),
    Assignment { identifier: Identifier, expr: Expression },
    FieldAssign { object: Expression, field: Identifier, expr: Expression },
    DerefAssign { pointer: Expression, expr: Expression },
    IndexAssign { object: Expression, index: Expression, expr: Expression },
    Return(Option<Vec<Expression>>),
    MultiAssignment { targets: Vec<Expression>, values: Vec<Expression> },
    MultiVariableDeclaration { identifiers: Vec<Identifier>, values: Vec<Expression> },
    If { condition: Expression, then_branch: Vec<Statement>, else_branch: Option<Vec<Statement>> },
    For {
        initializer: Option<Box<Statement>>,
        condition: Option<Expression>,
        post_operation: Option<Box<Statement>>,
        body: Vec<Statement>,
    },
    Break,
    Continue,
    Defer(Box<Statement>),
    Switch { subject: Expression, arms: Vec<SwitchArm> },
}

/// `var T x = e`, `x: T = e`, `x := e`; the type, the initializer or both.
#[derive(Debug)]
pub struct VariableDeclaration {
    pub identifier: Identifier,
    pub constant_type: Option<TypeExpression>,
    pub expression: Option<Expression>,
}

impl VariableDeclaration {
    pub fn new(identifier: Identifier, constant_type: Option<TypeExpression>, expression: Option<Expression>) -> (v: Self)
        ensures
            v.identifier == identifier,
            v.constant_type == constant_type,
            v.expression == expression,
    {
        VariableDeclaration { identifier, constant_type, expression }
    }
}

/// One `when` arm of a `switch`.
#[derive(Debug)]
pub struct SwitchArm {
    pub pattern: Pattern,
    pub body: Vec<Statement>,
}

#[derive(Debug)]
pub enum Pattern {
    /// `.Variant` or `.Variant(binding)`: matches an enum variant by name; the
    /// binding names the payload (as a struct) inside the arm.
    EnumVariant { variant: Identifier, binding: Option<Identifier> },
    /// `_`
    Wildcard,
}


impl Clone for TypeExpression {
    fn clone(&self) -> (r: Self)
        ensures
            type_of(&r) == type_of(self),
            r.span == self.span,
        decreases self, 0nat,
    {
        let kind = match &self.kind {
            TypeExpressionKind::Builtin(b) => TypeExpressionKind::Builtin(*b),
            TypeExpressionKind::Identifier(id) => TypeExpressionKind::Identifier(id.clone()),
            TypeExpressionKind::Function { argument_types, return_type } => {
                proof { assert(decreases_to!(argument_types => argument_types@)); }
                TypeExpressionKind::Function {
                    argument_types: clone_type_exprs(argument_types),
                    return_type: Box::new((**return_type).clone()),
                }
            },
            TypeExpressionKind::Tuple { elements } => {
                proof { assert(decreases_to!(elements => elements@)); }
                TypeExpressionKind::Tuple { elements: clone_type_exprs(elements) }
            },
            TypeExpressionKind::Pointer { pointed_type } => TypeExpressionKind::Pointer {
                pointed_type: Box::new((**pointed_type).clone()),
            },
            TypeExpressionKind::Struct { fields } => {
                proof { assert(decreases_to!(fields => fields@)); }
                TypeExpressionKind::Struct { fields: clone_fields(fields) }
            },
            TypeExpressionKind::Enum { variants } => {
                proof { assert(decreases_to!(variants => variants@)); }
                TypeExpressionKind::Enum { variants: clone_variants(variants) }
            },
            TypeExpressionKind::Array { element_type, size } => TypeExpressionKind::Array {
                element_type: Box::new((**element_type).clone()),
                size: *size,
            },
            TypeExpressionKind::Slice { element_type } => TypeExpressionKind::Slice {
                element_type: Box::new((**element_type).clone()),
            },
            TypeExpressionKind::QualifiedIdentifier { module, name } => TypeExpressionKind::QualifiedIdentifier {
                module: module.clone(),
                name: name.clone(),
            },
            TypeExpressionKind::TypeKeyword => TypeExpressionKind::TypeKeyword,
        };
        TypeExpression { kind, span: self.span }
    }
}

fn clone_type_exprs(v: &Vec<TypeExpression>) -> (r: Vec<TypeExpression>)
    ensures
        types_of(r@) == types_of(v@),
    decreases v@, 0nat,
{
    let mut out: Vec<TypeExpression> = Vec::new();
    let mut i: usize = 0;
    while i < v.len()
        invariant
            0 <= i <= v.len(),
            out.len() == i,
            forall|j: int| 0 <= j < i ==> type_of(&out@[j]) == type_of(&v@[j]),
        decreases v.len() - i,
    {
        proof { assert(decreases_to!(v@ => v@[i as int])); }
        out.push(v[i].clone());
        i = i + 1;
    }
    proof {
        lemma_types_of(out@);
        lemma_types_of(v@);
        assert(types_of(out@) =~= types_of(v@));
    }
    out
}

fn clone_fields(v: &Vec<Field>) -> (r: Vec<Field>)
    ensures
        field_types_of(r@) == field_types_of(v@),
    decreases v@, 0nat,
{
    let mut out: Vec<Field> = Vec::new();
    let mut i: usize = 0;
    while i < v.len()
        invariant
            0 <= i <= v.len(),
            out.len() == i,
            forall|j: int| 0 <= j < i ==> out@[j].label@ == v@[j].label@ && type_of(&out@[j].type_id) == type_of(&v@[j].type_id),
        decreases v.len() - i,
    {
        proof {
            assert(decreases_to!(v@ => v@[i as int]));
            assert(decreases_to!(v@[i as int] => v@[i as int].type_id));
        }
        out.push(Field { label: v[i].label.clone(), type_id: v[i].type_id.clone() });
        i = i + 1;
    }
    proof {
        lemma_field_types_of(out@);
        lemma_field_types_of(v@);
        assert(field_types_of(out@) =~= field_types_of(v@));
    }
    out
}

fn clone_variants(v: &Vec<EnumVariant>) -> (r: Vec<EnumVariant>)
    ensures
        variant_types_of(r@) == variant_types_of(v@),
    decreases v@, 0nat,
{
    let mut out: Vec<EnumVariant> = Vec::new();
    let mut i: usize = 0;
    while i < v.len()
        invariant
            0 <= i <= v.len(),
            out.len() == i,
            forall|j: int| 0 <= j < i ==> (#[trigger] out@[j]).name@ == v@[j].name@ && match (out@[j].payload, v@[j].payload) {
                (Some(a), Some(b)) => field_types_of(a@) == field_types_of(b@),
                (None, None) => true,
                _ => false,
            },
        decreases v.len() - i,
    {
        proof {
            assert(decreases_to!(v@ => v@[i as int]));
            assert(decreases_to!(v@[i as int] => v@[i as int].payload));
        }
        let payload = match &v[i].payload {
            Some(fs) => {
                proof { assert(decreases_to!(*fs => fs@)); }
                Some(clone_fields(fs))
            },
            None => None,
        };
        out.push(EnumVariant { name: v[i].name.clone(), payload });
        i = i + 1;
    }
    proof {
        lemma_variant_types_of(out@);
        lemma_variant_types_of(v@);
        assert forall|j: int| 0 <= j < v.len() implies variant_types_of(out@)[j] == variant_types_of(v@)[j] by {
            assert(out@[j].name@ == v@[j].name@);
        }
        assert(variant_types_of(out@) =~= variant_types_of(v@));
    }
    out
}

impl Clone for Field {
    fn clone(&self) -> (r: Self) {
        Field { label: self.label.clone(), type_id: self.type_id.clone() }
    }
}

/// Two type expressions denote the same type and start at the same place.
pub open spec fn same_type_expr(a: TypeExpression, b: TypeExpression) -> bool {
    type_of(&a) == type_of(&b) && a.span == b.span
}

/// Two expressions are the same tree: the same forms, names, literals,
/// operators, types and positions throughout.
pub open spec fn same_expr(a: Expression, b: Expression) -> bool
    decreases a,
{
    proof { assert(decreases_to!(a => a.kind)); }
    a.span == b.span && same_kind(a.kind, b.kind)
}

/// Two optional boxed expressions are both absent or the same tree.
pub open spec fn same_opt_box_expr(a: Option<Box<Expression>>, b: Option<Box<Expression>>) -> bool
    decreases a,
{
    match (a, b) {
        (Some(x), Some(y)) => same_expr(*x, *y),
        (None, None) => true,
        _ => false,
    }
}

/// `same_expr` on the forms of two expressions.
pub open spec fn same_kind(a: ExpressionKind, b: ExpressionKind) -> bool
    decreases a,
{
    match (a, b) {
        (ExpressionKind::Binary { left: l1, operator: o1, right: r1 }, ExpressionKind::Binary { left: l2, operator: o2, right: r2 }) =>
            o1 == o2 && same_expr(*l1, *l2) && same_expr(*r1, *r2),
        (ExpressionKind::Unary { operator: o1, expression: e1 }, ExpressionKind::Unary { operator: o2, expression: e2 }) =>
            o1 == o2 && same_expr(*e1, *e2),
        (ExpressionKind::Literal(x), ExpressionKind::Literal(y)) => x == y,
        (ExpressionKind::Identifier(x), ExpressionKind::Identifier(y)) => x == y,
        (ExpressionKind::Grouping(x), ExpressionKind::Grouping(y)) => same_expr(*x, *y),
        (ExpressionKind::Call { callee: c1, args: a1 }, ExpressionKind::Call { callee: c2, args: a2 }) => same_expr(*c1, *c2)
            && a1.len() == a2.len() && forall|i: int| 0 <= i < a1.len() ==> same_expr(a1@[i], #[trigger] a2@[i]),
        (ExpressionKind::BuiltinCall { builtin: b1, args: a1 }, ExpressionKind::BuiltinCall { builtin: b2, args: a2 }) => b1 == b2
            && a1.len() == a2.len() && forall|i: int| 0 <= i < a1.len() ==> same_expr(a1@[i], #[trigger] a2@[i]),
        (ExpressionKind::FieldAccess { object: o1, field: f1 }, ExpressionKind::FieldAccess { object: o2, field: f2 }) => f1 == f2
            && same_expr(*o1, *o2),
        (ExpressionKind::AddressOf(x), ExpressionKind::AddressOf(y)) => same_expr(*x, *y),
        (ExpressionKind::Dereference(x), ExpressionKind::Dereference(y)) => same_expr(*x, *y),
        (ExpressionKind::StructConstruct { struct_name: n1, fields: f1 }, ExpressionKind::StructConstruct { struct_name: n2, fields: f2 }) =>
            n1 == n2 && f1.len() == f2.len() && forall|i: int| 0 <= i < f1.len() ==> f1@[i].0 == (#[trigger] f2@[i]).0
                && same_expr(f1@[i].1, f2@[i].1),
        (ExpressionKind::Cast { expr: e1, target_type: t1 }, ExpressionKind::Cast { expr: e2, target_type: t2 }) => same_expr(*e1, *e2)
            && same_type_expr(t1, t2),
        (ExpressionKind::IndexAccess { object: o1, index: i1 }, ExpressionKind::IndexAccess { object: o2, index: i2 }) =>
            same_expr(*o1, *o2) && same_expr(*i1, *i2),
        (ExpressionKind::Slice { object: o1, start: s1, end: e1, inclusive: c1 }, ExpressionKind::Slice { object: o2, start: s2, end: e2, inclusive: c2 }) =>
            c1 == c2 && same_expr(*o1, *o2) && same_opt_box_expr(s1, s2) && same_opt_box_expr(e1, e2),
        (ExpressionKind::ArrayLiteral { elements: a1 }, ExpressionKind::ArrayLiteral { elements: a2 }) => a1.len() == a2.len()
            && forall|i: int| 0 <= i < a1.len() ==> same_expr(a1@[i], #[trigger] a2@[i]),
        (ExpressionKind::QualifiedAccess { module: m1, member: n1 }, ExpressionKind::QualifiedAccess { module: m2, member: n2 }) =>
            m1 == m2 && n1 == n2,
        (ExpressionKind::TypeValue(t1), ExpressionKind::TypeValue(t2)) => same_type_expr(t1, t2),
        (ExpressionKind::EnumVariantConstruct { enum_name: n1, variant: v1, fields: f1 }, ExpressionKind::EnumVariantConstruct {
            enum_name: n2,
            variant: v2,
            fields: f2,
        }) => n1 == n2 && v1 == v2 && f1.len() == f2.len() && forall|i: int| 0 <= i < f1.len() ==> f1@[i].0 == (#[trigger] f2@[i]).0
            && same_expr(f1@[i].1, f2@[i].1),
        _ => false,
    }
}

impl Clone for Expression {
    fn clone(&self) -> (r: Self)
        ensures
            same_expr(*self, r),
        decreases self, 0nat,
    {
        Expression { kind: clone_expr_kind(&self.kind), span: self.span }
    }
}

fn clone_opt_box_expr(e: &Option<Box<Expression>>) -> (r: Option<Box<Expression>>)
    ensures
        same_opt_box_expr(*e, r),
    decreases e, 0nat,
{
    match e {
        Some(b) => Some(Box::new((**b).clone())),
        None => None,
    }
}

fn clone_expr_kind(k: &ExpressionKind) -> (r: ExpressionKind)
    ensures
        same_kind(*k, r),
    decreases k, 0nat,
{
    match k {
        ExpressionKind::Binary { left, operator, right } => ExpressionKind::Binary {
            left: Box::new((**left).clone()),
            operator: *operator,
            right: Box::new((**right).clone()),
        },
        ExpressionKind::Unary { operator, expression } => ExpressionKind::Unary {
            operator: *operator,
            expression: Box::new((**expression).clone()),
        },
        ExpressionKind::Literal(l) => ExpressionKind::Literal(l.clone()),
        ExpressionKind::Identifier(id) => ExpressionKind::Identifier(id.clone()),
        ExpressionKind::Grouping(e) => ExpressionKind::Grouping(Box::new((**e).clone())),
        ExpressionKind::Call { callee, args } => {
            proof { assert(decreases_to!(args => args@)); }
            ExpressionKind::Call { callee: Box::new((**callee).clone()), args: clone_exprs(args) }
        },
        ExpressionKind::BuiltinCall { builtin, args } => {
            proof { assert(decreases_to!(args => args@)); }
            ExpressionKind::BuiltinCall { builtin: *builtin, args: clone_exprs(args) }
        },
        ExpressionKind::FieldAccess { object, field } => ExpressionKind::FieldAccess {
            object: Box::new((**object).clone()),
            field: field.clone(),
        },
        ExpressionKind::AddressOf(e) => ExpressionKind::AddressOf(Box::new((**e).clone())),
        ExpressionKind::Dereference(e) => ExpressionKind::Dereference(Box::new((**e).clone())),
        ExpressionKind::StructConstruct { struct_name, fields } => {
            proof { assert(decreases_to!(fields => fields@)); }
            ExpressionKind::StructConstruct { struct_name: struct_name.clone(), fields: clone_named_exprs(fields) }
        },
        ExpressionKind::Cast { expr, target_type } => ExpressionKind::Cast {
            expr: Box::new((**expr).clone()),
            target_type: target_type.clone(),
        },
        ExpressionKind::IndexAccess { object, index } => ExpressionKind::IndexAccess {
            object: Box::new((**object).clone()),
            index: Box::new((**index).clone()),
        },
        ExpressionKind::Slice { object, start, end, inclusive } => ExpressionKind::Slice {
            object: Box::new((**object).clone()),
            start: clone_opt_box_expr(start),
            end: clone_opt_box_expr(end),
            inclusive: *inclusive,
        },
        ExpressionKind::ArrayLiteral { elements } => {
            proof { assert(decreases_to!(elements => elements@)); }
            ExpressionKind::ArrayLiteral { elements: clone_exprs(elements) }
        },
        ExpressionKind::QualifiedAccess { module, member } => ExpressionKind::QualifiedAccess {
            module: module.clone(),
            member: member.clone(),
        },
        ExpressionKind::TypeValue(t) => ExpressionKind::TypeValue(t.clone()),
        ExpressionKind::EnumVariantConstruct { enum_name, variant, fields } => {
            proof { assert(decreases_to!(fields => fields@)); }
            ExpressionKind::EnumVariantConstruct {
                enum_name: enum_name.clone(),
                variant: variant.clone(),
                fields: clone_named_exprs(fields),
            }
        },
    }
}

fn clone_exprs(v: &Vec<Expression>) -> (r: Vec<Expression>)
    ensures
        r.len() == v.len(),
        forall|i: int| 0 <= i < v.len() ==> same_expr(v@[i], #[trigger] r@[i]),
    decreases v@, 0nat,
{
    let mut out: Vec<Expression> = Vec::new();
    let mut i: usize = 0;
    while i < v.len()
        invariant
            0 <= i <= v.len(),
            out.len() == i,
            forall|j: int| 0 <= j < i ==> same_expr(v@[j], #[trigger] out@[j]),
        decreases v.len() - i,
    {
        proof { assert(decreases_to!(v@ => v@[i as int])); }
        out.push(v[i].clone());
        i = i + 1;
    }
    out
}

fn clone_named_exprs(v: &Vec<(Identifier, Expression)>) -> (r: Vec<(Identifier, Expression)>)
    ensures
        r.len() == v.len(),
        forall|i: int| 0 <= i < v.len() ==> v@[i].0 == (#[trigger] r@[i]).0 && same_expr(v@[i].1, r@[i].1),
    decreases v@, 0nat,
{
    let mut out: Vec<(Identifier, Expression)> = Vec::new();
    let mut i: usize = 0;
    while i < v.len()
        invariant
            0 <= i <= v.len(),
            out.len() == i,
            forall|j: int| 0 <= j < i ==> v@[j].0 == (#[trigger] out@[j]).0 && same_expr(v@[j].1, out@[j].1),
        decreases v.len() - i,
    {
        proof { assert(decreases_to!(v@ => v@[i as int])); assert(decreases_to!(v@[i as int] => v@[i as int].1)); }
        out.push((v[i].0.clone(), v[i].1.clone()));
        i = i + 1;
    }
    out
}

/// Two statements are the same tree, as `same_expr` says of expressions.
pub open spec fn same_stmt(a: Statement, b: Statement) -> bool
    decreases a,
{
    proof { assert(decreases_to!(a => a.kind)); }
    a.span == b.span && same_stmt_kind(a.kind, b.kind)
}

/// Two statement lists are the same statement by statement.
pub open spec fn same_stmts(a: Seq<Statement>, b: Seq<Statement>) -> bool
    decreases a,
{
    a.len() == b.len() && forall|i: int| 0 <= i < a.len() ==> same_stmt(a[i], #[trigger] b[i])
}

pub open spec fn same_opt_expr(a: Option<Expression>, b: Option<Expression>) -> bool {
    match (a, b) {
        (Some(x), Some(y)) => same_expr(x, y),
        (None, None) => true,
        _ => false,
    }
}

pub open spec fn same_opt_box_stmt(a: Option<Box<Statement>>, b: Option<Box<Statement>>) -> bool
    decreases a,
{
    match (a, b) {
        (Some(x), Some(y)) => same_stmt(*x, *y),
        (None, None) => true,
        _ => false,
    }
}

pub open spec fn same_exprs(a: Seq<Expression>, b: Seq<Expression>) -> bool {
    a.len() == b.len() && forall|i: int| 0 <= i < a.len() ==> same_expr(a[i], #[trigger] b[i])
}

/// Two `switch` arms match the same pattern and have the same body.
pub open spec fn same_arm(a: SwitchArm, b: SwitchArm) -> bool
    decreases a,
{
    proof { assert(decreases_to!(a => a.body)); assert(decreases_to!(a.body => a.body@)); }
    a.pattern == b.pattern && same_stmts(a.body@, b.body@)
}

/// `same_stmt` on the forms of two statements.
pub open spec fn same_stmt_kind(a: StatementKind, b: StatementKind) -> bool
    decreases a,
{
    match (a, b) {
        (StatementKind::VariableDeclaration(d1), StatementKind::VariableDeclaration(d2)) => d1.identifier == d2.identifier
            && (match (d1.constant_type, d2.constant_type) {
                (Some(t1), Some(t2)) => same_type_expr(t1, t2),
                (None, None) => true,
                _ => false,
            }) && same_opt_expr(d1.expression, d2.expression),
        (StatementKind::ExpressionStatement(e1), StatementKind::ExpressionStatement(e2)) => same_expr(e1, e2),
        (StatementKind::Assignment { identifier: i1, expr: e1 }, StatementKind::Assignment { identifier: i2, expr: e2 }) =>
            i1 == i2 && same_expr(e1, e2),
        (StatementKind::FieldAssign { object: o1, field: f1, expr: e1 }, StatementKind::FieldAssign { object: o2, field: f2, expr: e2 }) =>
            f1 == f2 && same_expr(o1, o2) && same_expr(e1, e2),
        (StatementKind::DerefAssign { pointer: p1, expr: e1 }, StatementKind::DerefAssign { pointer: p2, expr: e2 }) =>
            same_expr(p1, p2) && same_expr(e1, e2),
        (StatementKind::IndexAssign { object: o1, index: i1, expr: e1 }, StatementKind::IndexAssign { object: o2, index: i2, expr: e2 }) =>
            same_expr(o1, o2) && same_expr(i1, i2) && same_expr(e1, e2),
        (StatementKind::Return(r1), StatementKind::Return(r2)) => match (r1, r2) {
            (Some(v1), Some(v2)) => same_exprs(v1@, v2@),
            (None, None) => true,
            _ => false,
        },
        (StatementKind::MultiAssignment { targets: t1, values: v1 }, StatementKind::MultiAssignment { targets: t2, values: v2 }) =>
            same_exprs(t1@, t2@) && same_exprs(v1@, v2@),
        (StatementKind::MultiVariableDeclaration { identifiers: i1, values: v1 }, StatementKind::MultiVariableDeclaration {
            identifiers: i2,
            values: v2,
        }) => i1@ == i2@ && same_exprs(v1@, v2@),
        (StatementKind::If { condition: c1, then_branch: t1, else_branch: e1 }, StatementKind::If {
            condition: c2,
            then_branch: t2,
            else_branch: e2,
        }) => same_expr(c1, c2) && same_stmts(t1@, t2@) && match (e1, e2) {
            (Some(x), Some(y)) => same_stmts(x@, y@),
            (None, None) => true,
            _ => false,
        },
        (StatementKind::For { initializer: i1, condition: c1, post_operation: p1, body: b1 }, StatementKind::For {
            initializer: i2,
            condition: c2,
            post_operation: p2,
            body: b2,
        }) => same_opt_box_stmt(i1, i2) && same_opt_expr(c1, c2) && same_opt_box_stmt(p1, p2) && same_stmts(b1@, b2@),
        (StatementKind::Break, StatementKind::Break) => true,
        (StatementKind::Continue, StatementKind::Continue) => true,
        (StatementKind::Defer(x), StatementKind::Defer(y)) => same_stmt(*x, *y),
        (StatementKind::Switch { subject: s1, arms: a1 }, StatementKind::Switch { subject: s2, arms: a2 }) => same_expr(s1, s2)
            && a1.len() == a2.len() && forall|i: int| 0 <= i < a1.len() ==> same_arm(a1@[i], #[trigger] a2@[i]),
        _ => false,
    }
}

impl Clone for Statement {
    fn clone(&self) -> (r: Self)
        ensures
            same_stmt(*self, r),
        decreases self, 0nat,
    {
        Statement { kind: clone_stmt_kind(&self.kind), span: self.span }
    }
}

fn clone_opt_expr(e: &Option<Expression>) -> (r: Option<Expression>)
    ensures
        same_opt_expr(*e, r),
{
    match e {
        Some(x) => Some(x.clone()),
        None => None,
    }
}

fn clone_opt_box_stmt(s: &Option<Box<Statement>>) -> (r: Option<Box<Statement>>)
    ensures
        same_opt_box_stmt(*s, r),
    decreases s, 0nat,
{
    match s {
        Some(b) => Some(Box::new((**b).clone())),
        None => None,
    }
}

fn clone_stmt_kind(k: &StatementKind) -> (r: StatementKind)
    ensures
        same_stmt_kind(*k, r),
    decreases k, 0nat,
{
    match k {
        StatementKind::VariableDeclaration(d) => StatementKind::VariableDeclaration(VariableDeclaration {
            identifier: d.identifier.clone(),
            constant_type: match &d.constant_type {
                Some(t) => Some(t.clone()),
                None => None,
            },
            expression: clone_opt_expr(&d.expression),
        }),
        StatementKind::ExpressionStatement(e) => StatementKind::ExpressionStatement(e.clone()),
        StatementKind::Assignment { identifier, expr } => StatementKind::Assignment {
            identifier: identifier.clone(),
            expr: expr.clone(),
        },
        StatementKind::FieldAssign { object, field, expr } => StatementKind::FieldAssign {
            object: object.clone(),
            field: field.clone(),
            expr: expr.clone(),
        },
        StatementKind::DerefAssign { pointer, expr } => StatementKind::DerefAssign {
            pointer: pointer.clone(),
            expr: expr.clone(),
        },
        StatementKind::IndexAssign { object, index, expr } => StatementKind::IndexAssign {
            object: object.clone(),
            index: index.clone(),
            expr: expr.clone(),
        },
        StatementKind::Return(v) => StatementKind::Return(match v {
            Some(es) => Some(clone_exprs(es)),
            None => None,
        }),
        StatementKind::MultiAssignment { targets, values } => StatementKind::MultiAssignment {
            targets: clone_exprs(targets),
            values: clone_exprs(values),
        },
        StatementKind::MultiVariableDeclaration { identifiers, values } => StatementKind::MultiVariableDeclaration {
            identifiers: identifiers.clone(),
            values: clone_exprs(values),
        },
        StatementKind::If { condition, then_branch, else_branch } => {
            proof { assert(decreases_to!(then_branch => then_branch@)); }
            StatementKind::If {
                condition: condition.clone(),
                then_branch: clone_stmts(then_branch),
                else_branch: match else_branch {
                    Some(eb) => {
                        proof { assert(decreases_to!(eb => eb@)); }
                        Some(clone_stmts(eb))
                    },
                    None => None,
                },
            }
        },
        StatementKind::For { initializer, condition, post_operation, body } => {
            proof { assert(decreases_to!(body => body@)); }
            StatementKind::For {
                initializer: clone_opt_box_stmt(initializer),
                condition: clone_opt_expr(condition),
                post_operation: clone_opt_box_stmt(post_operation),
                body: clone_stmts(body),
            }
        },
        StatementKind::Break => StatementKind::Break,
        StatementKind::Continue => StatementKind::Continue,
        StatementKind::Defer(b) => StatementKind::Defer(Box::new((**b).clone())),
        StatementKind::Switch { subject, arms } => {
            proof { assert(decreases_to!(arms => arms@)); }
            StatementKind::Switch { subject: subject.clone(), arms: clone_arms(arms) }
        },
    }
}

fn clone_stmts(v: &Vec<Statement>) -> (r: Vec<Statement>)
    ensures
        same_stmts(v@, r@),
    decreases v@, 0nat,
{
    let mut out: Vec<Statement> = Vec::new();
    let mut i: usize = 0;
    while i < v.len()
        invariant
            0 <= i <= v.len(),
            out.len() == i,
            forall|j: int| 0 <= j < i ==> same_stmt(v@[j], #[trigger] out@[j]),
        decreases v.len() - i,
    {
        proof { assert(decreases_to!(v@ => v@[i as int])); }
        out.push(v[i].clone());
        i = i + 1;
    }
    out
}

fn clone_arms(v: &Vec<SwitchArm>) -> (r: Vec<SwitchArm>)
    ensures
        r.len() == v.len(),
        forall|i: int| 0 <= i < v.len() ==> same_arm(v@[i], #[trigger] r@[i]),
    decreases v@, 0nat,
{
    let mut out: Vec<SwitchArm> = Vec::new();
    let mut i: usize = 0;
    while i < v.len()
        invariant
            0 <= i <= v.len(),
            out.len() == i,
            forall|j: int| 0 <= j < i ==> same_arm(v@[j], #[trigger] out@[j]),
        decreases v.len() - i,
    {
        proof {
            assert(decreases_to!(v@ => v@[i as int]));
            assert(decreases_to!(v@[i as int].body => v@[i as int].body@));
        }
        let pattern = match &v[i].pattern {
            Pattern::EnumVariant { variant, binding } => Pattern::EnumVariant {
                variant: variant.clone(),
                binding: binding.clone(),
            },
            Pattern::Wildcard => Pattern::Wildcard,
        };
        out.push(SwitchArm { pattern, body: clone_stmts(&v[i].body) });
        i = i + 1;
    }
    out
}

/// Two function bodies, both absent or both present with the same statements.
pub open spec fn same_body(a: Option<FunctionBody>, b: Option<FunctionBody>) -> bool {
    match (a, b) {
        (Some(x), Some(y)) => same_stmts(x.statements@, y.statements@),
        (None, None) => true,
        _ => false,
    }
}

/// Two declarations of the same kind; two functions of the same name and body.
pub open spec fn same_decl(a: DeclarationNode, b: DeclarationNode) -> bool {
    match (a, b) {
        (DeclarationNode::ImportDeclaration(_), DeclarationNode::ImportDeclaration(_)) => true,
        (DeclarationNode::TypeDeclaration(x), DeclarationNode::TypeDeclaration(y)) => x.name == y.name,
        (DeclarationNode::FunctionDeclaration(f), DeclarationNode::FunctionDeclaration(g)) => f.signature.name == g.signature.name
            && same_body(f.body, g.body),
        _ => false,
    }
}

impl Clone for FunctionDeclaration {
    fn clone(&self) -> (r: Self)
        ensures
            r.signature.name == self.signature.name,
            same_body(self.body, r.body),
    {
        let mut params: Vec<FunctionParameter> = Vec::new();
        let mut i: usize = 0;
        while i < self.signature.parameters.len()
            invariant
                0 <= i <= self.signature.parameters.len(),
            decreases self.signature.parameters.len() - i,
        {
            params.push(FunctionParameter {
                parameter_name: self.signature.parameters[i].parameter_name.clone(),
                parameter_type: self.signature.parameters[i].parameter_type.clone(),
            });
            i = i + 1;
        }
        FunctionDeclaration {
            signature: FunctionSignature {
                name: self.signature.name.clone(),
                parameters: params,
                return_type: match &self.signature.return_type {
                    Some(t) => Some(t.clone()),
                    None => None,
                },
            },
            body: match &self.body {
                Some(b) => Some(FunctionBody { statements: clone_stmts(&b.statements) }),
                None => None,
            },
            is_extern: self.is_extern,
            is_variadic: self.is_variadic,
        }
    }
}


impl Clone for DeclarationNode {
    fn clone(&self) -> (r: Self)
        ensures
            same_decl(*self, r),
    {
        match self {
            DeclarationNode::ImportDeclaration(i) => DeclarationNode::ImportDeclaration(ImportDeclaration {
                path: i.path.clone(),
                alias: i.alias.clone(),
                selective: i.selective.clone(),
            }),
            DeclarationNode::FunctionDeclaration(f) => DeclarationNode::FunctionDeclaration(f.clone()),
            DeclarationNode::TypeDeclaration(t) => DeclarationNode::TypeDeclaration(TypeDeclaration {
                name: t.name.clone(),
                expression: t.expression.clone(),
            }),
        }
    }
}

impl Clone for Ast {
    fn clone(&self) -> (r: Self)
        ensures
            r.declarations.len() == self.declarations.len(),
            forall|i: int| 0 <= i < self.declarations.len() ==> same_decl(self.declarations@[i], #[trigger] r.declarations@[i]),
    {
        let mut declarations: Vec<DeclarationNode> = Vec::new();
        let mut i: usize = 0;
        while i < self.declarations.len()
            invariant
                0 <= i <= self.declarations.len(),
                declarations.len() == i,
                forall|j: int| 0 <= j < i ==> same_decl(self.declarations@[j], #[trigger] declarations@[j]),
            decreases self.declarations.len() - i,
        {
            declarations.push(self.declarations[i].clone());
            i = i + 1;
        }
        Ast { declarations }
    }
}
} // verus!
