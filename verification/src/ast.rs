use vstd::prelude::*;
use crate::error::SourceLocation;

verus! {

/// Root AST node representing a full C translation unit.
#[derive(Debug, Default)]
pub struct TranslationUnit {
    /// Top-level declarations and definitions in source order.
    pub top_level_items: Vec<ExternalDeclaration>,
}

/// Top-level declarations supported by the compiler frontend.
#[derive(Debug)]
pub enum ExternalDeclaration {
    /// Global variable declaration.
    GlobalDeclaration(Declaration),
    /// Function definition.
    Function(FunctionDeclaration),
    /// Tag-only type declaration such as `struct Point { int x; };`.
    TypeDeclaration(Type),
}

/// Primitive builtin types supported in the current language subset.
#[derive(Debug, Clone, Copy, PartialEq, Eq, Structural)]
pub enum BuiltinType {
    Int,
    Char,
    Void,
}

/// Type representation for declarations and expressions.
#[derive(Debug)]
pub enum Type {
    /// Builtin scalar type.
    Builtin(BuiltinType),
    /// Pointer type (`*T`).
    Pointer(Box<Type>),
    /// Fixed-size array type (`T[N]`).
    Array { element: Box<Type>, size: Option<ConstExpr> },
    /// Function type (`T(params...)`).
    Function { return_type: Box<Type>, params: Vec<Parameter> },
    /// Struct type (`struct Name { ... }` or `struct Name`).
    Struct { name: String, fields: Vec<StructField> },
    /// Reference to a type introduced by `typedef`.
    Alias(String),
    /// Enumeration type (`enum Name { ... }` or `enum Name`), an integer type whose listed
    /// constants have the given values.
    Enum { name: String, enumerators: Vec<Enumerator> },
}

/// An enumeration constant and its value.
#[derive(Debug)]
pub struct Enumerator {
    pub name: String,
    pub value: i64,
}

/// Struct field declaration entry.
#[derive(Debug)]
pub struct StructField {
    pub name: String,
    pub ty: Type,
}

/// Compile-time integer expression placeholder for declarator sizes.
#[derive(Debug, Clone, Copy, PartialEq, Eq, Structural)]
pub struct ConstExpr {
    pub value: i64,
}

/// Named parameter in a function signature.
#[derive(Debug)]
pub struct Parameter {
    pub name: Option<String>,
    pub ty: Type,
    pub location: Option<SourceLocation>,
}

/// Variable declaration entry.
#[derive(Debug)]
pub struct Declarator {
    pub name: String,
    pub ty: Type,
    pub initializer: Option<Expression>,
}

/// Declaration statement/declaration-list node.
#[derive(Debug, Default)]
pub struct Declaration {
    pub storage_class: Option<StorageClass>,
    pub declarators: Vec<Declarator>,
}

/// Storage-class specifiers recognized by the parser.
#[derive(Debug, Clone, Copy, PartialEq, Eq, Structural)]
pub enum StorageClass {
    Static,
    Typedef,
}

/// Function definition node.
#[derive(Debug)]
pub struct FunctionDeclaration {
    pub name: String,
    pub return_type: Type,
    pub params: Vec<Parameter>,
    pub body: Block,
}

/// Compound statement block with declarations/statements in source order.
#[derive(Debug, Default)]
pub struct Block {
    pub items: Vec<BlockItem>,
}

/// Item inside a compound statement.
#[derive(Debug)]
pub enum BlockItem {
    Declaration(Declaration),
    Statement(Statement),
}

/// Statement forms of the language subset.
#[derive(Debug)]
pub enum Statement {
    Block(Block),
    If {
        condition: Expression,
        then_branch: Box<Statement>,
        else_branch: Option<Box<Statement>>,
    },
    While { condition: Expression, body: Box<Statement> },
    For {
        init: Option<Expression>,
        condition: Option<Expression>,
        update: Option<Expression>,
        body: Box<Statement>,
    },
    Return(Option<Expression>),
    Expression(Option<Expression>),
    InlineAsm(Vec<String>),
}

/// Expression forms for the reduced C subset.
#[derive(Debug)]
pub enum Expression {
    /// Reference to a declared symbol by name.
    Identifier { name: String, location: Option<SourceLocation> },
    /// Integer literal constant.
    IntegerLiteral { value: i64, location: Option<SourceLocation> },
    /// Unary expression with one operand.
    Unary { op: UnaryOp, expr: Box<Expression>, location: Option<SourceLocation> },
    /// Binary expression with left and right operands.
    Binary {
        op: BinaryOp,
        lhs: Box<Expression>,
        rhs: Box<Expression>,
        location: Option<SourceLocation>,
    },
    /// Assignment expression (`target = value`).
    Assignment {
        target: Box<Expression>,
        value: Box<Expression>,
        location: Option<SourceLocation>,
    },
    /// Function call expression (`callee(args...)`).
    Call { callee: Box<Expression>, args: Vec<Expression>, location: Option<SourceLocation> },
    /// Index expression (`base[index]`).
    Index { base: Box<Expression>, index: Box<Expression>, location: Option<SourceLocation> },
    /// Array initializer (`{ expr, expr, ... }`).
    ArrayInitializer { elements: Vec<Expression>, location: Option<SourceLocation> },
    /// Struct member access (`base.member` or `base->member`).
    MemberAccess {
        base: Box<Expression>,
        member: String,
        through_pointer: bool,
        location: Option<SourceLocation>,
    },
    /// Increment or decrement of an lvalue by one (`++x`, `x++`, `--x`, `x--`); a prefix
    /// form has the new value, a postfix form the old one.
    IncDec {
        target: Box<Expression>,
        decrement: bool,
        prefix: bool,
        location: Option<SourceLocation>,
    },
}

/// Unary operators supported by the parser subset.
#[derive(Debug, Clone, Copy, PartialEq, Eq, Structural)]
pub enum UnaryOp {
    AddressOf,
    Dereference,
    Plus,
    Minus,
    LogicalNot,
}

/// Binary operators supported by the parser subset.
#[derive(Debug, Clone, Copy, PartialEq, Eq, Structural)]
pub enum BinaryOp {
    Multiply,
    Modulo,
    Add,
    Subtract,
    Less,
    LessEqual,
    Greater,
    GreaterEqual,
    Equal,
    NotEqual,
    LogicalAnd,
    LogicalOr,
    Divide,
    ShiftLeft,
    ShiftRight,
    BitwiseAnd,
    BitwiseOr,
    BitwiseXor,
}

/// The source location stored in an expression node.
pub open spec fn expr_location(e: Expression) -> Option<SourceLocation> {
    match e {
        Expression::Identifier { location, .. } => location,
        Expression::IntegerLiteral { location, .. } => location,
        Expression::Unary { location, .. } => location,
        Expression::Binary { location, .. } => location,
        Expression::Assignment { location, .. } => location,
        Expression::Call { location, .. } => location,
        Expression::Index { location, .. } => location,
        Expression::ArrayInitializer { location, .. } => location,
        Expression::MemberAccess { location, .. } => location,
        Expression::IncDec { location, .. } => location,
    }
}

impl Expression {
    /// Returns source location associated with the expression, when available.
    pub fn location(&self) -> (r: Option<SourceLocation>)
        ensures
            r == expr_location(*self),
    {
        match self {
            Expression::Identifier { location, .. } => *location,
            Expression::IntegerLiteral { location, .. } => *location,
            Expression::Unary { location, .. } => *location,
            Expression::Binary { location, .. } => *location,
            Expression::Assignment { location, .. } => *location,
            Expression::Call { location, .. } => *location,
            Expression::Index { location, .. } => *location,
            Expression::ArrayInitializer { location, .. } => *location,
            Expression::MemberAccess { location, .. } => *location,
            Expression::IncDec { location, .. } => *location,
        }
    }
}

/// The value of a constant expression: an integer literal under any number of unary `+`
/// and `-` (`None` for any other expression).
pub open spec fn constant_value(e: Expression) -> Option<int>
    decreases e,
{
    match e {
        Expression::IntegerLiteral { value, .. } => Some(value as int),
        Expression::Unary { op: UnaryOp::Plus, expr, .. } => constant_value(*expr),
        Expression::Unary { op: UnaryOp::Minus, expr, .. } => match constant_value(*expr) {
            Some(v) => Some(-v),
            None => None,
        },
        _ => None,
    }
}

/// Whether every element of an initializer list is a constant expression.
pub open spec fn all_constant(es: Seq<Expression>) -> bool {
    forall|i: int| 0 <= i < es.len() ==> (#[trigger] constant_value(es[i])) is Some
}

/// Computes `constant_value`.
pub fn evaluate_constant(e: &Expression) -> (r: Option<i128>)
    ensures
        match r {
            Some(v) => constant_value(*e) == Some(v as int) && -0x8000_0000_0000_0000 <= v <= 0x8000_0000_0000_0000,
            None => constant_value(*e) is None,
        },
    decreases e,
{
    match e {
        Expression::IntegerLiteral { value, .. } => Some(*value as i128),
        Expression::Unary { op: UnaryOp::Plus, expr, .. } => evaluate_constant(expr),
        Expression::Unary { op: UnaryOp::Minus, expr, .. } => match evaluate_constant(expr) {
            Some(v) => Some(-v),
            None => None,
        },
        _ => None,
    }
}

} // verus!

verus! {

/// Mathematical model of a `Type`: names are character sequences and lists are sequences.
pub enum TypeView {
    Builtin(BuiltinType),
    Pointer(Box<TypeView>),
    Array(Box<TypeView>, Option<ConstExpr>),
    Function(Box<TypeView>, Seq<ParamView>),
    Struct(Seq<char>, Seq<FieldView>),
    Alias(Seq<char>),
    Enum(Seq<char>, Seq<(Seq<char>, i64)>),
}

/// Mathematical model of a `Parameter`.
pub struct ParamView {
    pub name: Option<Seq<char>>,
    pub ty: TypeView,
    pub location: Option<SourceLocation>,
}

/// Mathematical model of a `StructField`.
pub struct FieldView {
    pub name: Seq<char>,
    pub ty: TypeView,
}

pub open spec fn opt_string_view(s: Option<String>) -> Option<Seq<char>> {
    match s {
        Some(n) => Some(n@),
        None => None,
    }
}

pub open spec fn type_view(t: Type) -> TypeView
    decreases t,
{
    match t {
        Type::Builtin(b) => TypeView::Builtin(b),
        Type::Pointer(p) => TypeView::Pointer(Box::new(type_view(*p))),
        Type::Array { element, size } => TypeView::Array(Box::new(type_view(*element)), size),
        Type::Function { return_type, params } => TypeView::Function(
            Box::new(type_view(*return_type)),
            params_view(params@),
        ),
        Type::Struct { name, fields } => TypeView::Struct(name@, fields_view(fields@)),
        Type::Alias(n) => TypeView::Alias(n@),
        Type::Enum { name, enumerators } => TypeView::Enum(name@, enumerators_view(enumerators@)),
    }
}

pub open spec fn enumerators_view(s: Seq<Enumerator>) -> Seq<(Seq<char>, i64)> {
    s.map_values(|e: Enumerator| (e.name@, e.value))
}

/// A copy of a list of enumeration constants.
pub fn copy_enumerators(es: &Vec<Enumerator>) -> (r: Vec<Enumerator>)
    ensures
        enumerators_view(r@) == enumerators_view(es@),
{
    let mut out: Vec<Enumerator> = Vec::new();
    let mut i: usize = 0;
    while i < es.len()
        invariant
            0 <= i <= es.len(),
            enumerators_view(out@) =~= enumerators_view(es@.take(i as int)),
        decreases es.len() - i,
    {
        out.push(Enumerator { name: es[i].name.clone(), value: es[i].value });
        assert(enumerators_view(es@.take(i + 1)) =~= enumerators_view(es@.take(i as int)).push((es@[i as int].name@, es@[i as int].value)));
        i += 1;
    }
    assert(es@.take(es.len() as int) =~= es@);
    out
}

pub open spec fn param_view(p: Parameter) -> ParamView
    decreases p,
{
    ParamView { name: opt_string_view(p.name), ty: type_view(p.ty), location: p.location }
}

pub open spec fn field_view(f: StructField) -> FieldView
    decreases f,
{
    FieldView { name: f.name@, ty: type_view(f.ty) }
}

pub open spec fn params_view(s: Seq<Parameter>) -> Seq<ParamView>
    decreases s,
{
    if s.len() == 0 {
        Seq::empty()
    } else {
        params_view(s.drop_last()).push(param_view(s.last()))
    }
}

pub open spec fn fields_view(s: Seq<StructField>) -> Seq<FieldView>
    decreases s,
{
    if s.len() == 0 {
        Seq::empty()
    } else {
        fields_view(s.drop_last()).push(field_view(s.last()))
    }
}

impl View for Type {
    type V = TypeView;

    open spec fn view(&self) -> TypeView {
        type_view(*self)
    }
}


impl View for Parameter {
    type V = ParamView;

    open spec fn view(&self) -> ParamView {
        param_view(*self)
    }
}

impl View for StructField {
    type V = FieldView;

    open spec fn view(&self) -> FieldView {
        field_view(*self)
    }
}

/// Deep copy of an optional name.
pub fn copy_opt_string(s: &Option<String>) -> (r: Option<String>)
    ensures
        opt_string_view(r) == opt_string_view(*s),
{
    match s {
        Some(n) => Some(n.clone()),
        None => None,
    }
}

/// Deep copy of a type.
#[verifier::loop_isolation(false)]
pub fn copy_type(t: &Type) -> (r: Type)
    ensures
        r@ == t@,
    decreases t,
{
    match t {
        Type::Builtin(b) => Type::Builtin(*b),
        Type::Pointer(p) => Type::Pointer(Box::new(copy_type(p))),
        Type::Array { element, size } => Type::Array { element: Box::new(copy_type(element)), size: *size },
        Type::Function { return_type, params } => {
            let mut out: Vec<Parameter> = Vec::new();
            let mut i: usize = 0;
            while i < params.len()
                invariant
                    0 <= i <= params.len(),
                    params_view(out@) == params_view(params@.take(i as int)),
                decreases params.len() - i,
            {
                let p = &params[i];
                proof {
                    assert(decreases_to!(*t => *params));
                    assert(decreases_to!(*params => params@));
                    assert(decreases_to!(params@ => params@[i as int]));
                }
                let ghost old_out = out@;
                out.push(Parameter { name: copy_opt_string(&p.name), ty: copy_type(&p.ty), location: p.location });
                assert(out@.drop_last() =~= old_out);
                assert(params@.take(i + 1).drop_last() =~= params@.take(i as int));
                assert(params@.take(i + 1).last() == params@[i as int]);
                assert(param_view(out@.last()) == param_view(params@[i as int]));
                assert(params_view(out@) == params_view(old_out).push(param_view(out@.last())));
                i += 1;
            }
            assert(params@.take(params.len() as int) =~= params@);
            Type::Function { return_type: Box::new(copy_type(return_type)), params: out }
        },
        Type::Struct { name, fields } => {
            let mut out: Vec<StructField> = Vec::new();
            let mut i: usize = 0;
            while i < fields.len()
                invariant
                    0 <= i <= fields.len(),
                    fields_view(out@) == fields_view(fields@.take(i as int)),
                decreases fields.len() - i,
            {
                let f = &fields[i];
                proof {
                    assert(decreases_to!(*t => *fields));
                    assert(decreases_to!(*fields => fields@));
                    assert(decreases_to!(fields@ => fields@[i as int]));
                }
                let ghost old_out = out@;
                out.push(StructField { name: f.name.clone(), ty: copy_type(&f.ty) });
                assert(out@.drop_last() =~= old_out);
                assert(fields@.take(i + 1).drop_last() =~= fields@.take(i as int));
                assert(fields@.take(i + 1).last() == fields@[i as int]);
                assert(field_view(out@.last()) == field_view(fields@[i as int]));
                assert(fields_view(out@) == fields_view(old_out).push(field_view(out@.last())));
                i += 1;
            }
            assert(fields@.take(fields.len() as int) =~= fields@);
            Type::Struct { name: name.clone(), fields: out }
        },
        Type::Alias(n) => Type::Alias(n.clone()),
        Type::Enum { name, enumerators } => Type::Enum { name: name.clone(), enumerators: copy_enumerators(enumerators) },
    }
}


pub proof fn lemma_params_view(s: Seq<Parameter>)
    ensures
        params_view(s).len() == s.len(),
        forall|i: int| 0 <= i < s.len() ==> #[trigger] params_view(s)[i] == param_view(s[i]),
    decreases s.len(),
{
    if s.len() > 0 {
        lemma_params_view(s.drop_last());
        assert forall|i: int| 0 <= i < s.len() implies #[trigger] params_view(s)[i] == param_view(s[i]) by {
            if i < s.len() - 1 {
                assert(s.drop_last()[i] == s[i]);
            }
        }
    }
}

pub proof fn lemma_fields_view(s: Seq<StructField>)
    ensures
        fields_view(s).len() == s.len(),
        forall|i: int| 0 <= i < s.len() ==> #[trigger] fields_view(s)[i] == field_view(s[i]),
    decreases s.len(),
{
    if s.len() > 0 {
        lemma_fields_view(s.drop_last());
        assert forall|i: int| 0 <= i < s.len() implies #[trigger] fields_view(s)[i] == field_view(s[i]) by {
            if i < s.len() - 1 {
                assert(s.drop_last()[i] == s[i]);
            }
        }
    }
}

/// Whether two optional names are equal.
pub fn opt_strings_equal(a: &Option<String>, b: &Option<String>) -> (r: bool)
    ensures
        r == (opt_string_view(*a) == opt_string_view(*b)),
{
    match (a, b) {
        (Some(x), Some(y)) => *x == *y,
        (None, None) => true,
        _ => false,
    }
}

/// Structural equality of types.
#[verifier::loop_isolation(false)]
pub fn types_equal(a: &Type, b: &Type) -> (r: bool)
    ensures
        r == (a@ == b@),
    decreases a,
{
    match (a, b) {
        (Type::Builtin(x), Type::Builtin(y)) => *x == *y,
        (Type::Pointer(x), Type::Pointer(y)) => types_equal(x, y),
        (Type::Array { element: ex, size: sx }, Type::Array { element: ey, size: sy }) => {
            let same_size = match (sx, sy) {
                (Some(p), Some(q)) => p.value == q.value,
                (None, None) => true,
                _ => false,
            };
            same_size && types_equal(ex, ey)
        },
        (Type::Function { return_type: rx, params: px }, Type::Function { return_type: ry, params: py }) => {
            proof {
                lemma_params_view(px@);
                lemma_params_view(py@);
            }
            if !types_equal(rx, ry) || px.len() != py.len() {
                assert(px.len() != py.len() ==> params_view(px@).len() != params_view(py@).len());
                return false;
            }
            let mut i: usize = 0;
            while i < px.len()
                invariant
                    0 <= i <= px.len(),
                    px.len() == py.len(),
                    forall|j: int| 0 <= j < i ==> param_view(px@[j]) == param_view(py@[j]),
                decreases px.len() - i,
            {
                proof {
                    assert(decreases_to!(*a => *px));
                    assert(decreases_to!(*px => px@));
                    assert(decreases_to!(px@ => px@[i as int]));
                }
                let p = &px[i];
                let q = &py[i];
                if !opt_strings_equal(&p.name, &q.name) || p.location != q.location || !types_equal(&p.ty, &q.ty) {
                    assert(params_view(px@)[i as int] != params_view(py@)[i as int]);
                    return false;
                }
                i += 1;
            }
            assert(params_view(px@) =~= params_view(py@));
            true
        },
        (Type::Struct { name: nx, fields: fx }, Type::Struct { name: ny, fields: fy }) => {
            proof {
                lemma_fields_view(fx@);
                lemma_fields_view(fy@);
            }
            if *nx != *ny || fx.len() != fy.len() {
                assert(fx.len() != fy.len() ==> fields_view(fx@).len() != fields_view(fy@).len());
                return false;
            }
            let mut i: usize = 0;
            while i < fx.len()
                invariant
                    0 <= i <= fx.len(),
                    fx.len() == fy.len(),
                    forall|j: int| 0 <= j < i ==> field_view(fx@[j]) == field_view(fy@[j]),
                decreases fx.len() - i,
            {
                proof {
                    assert(decreases_to!(*a => *fx));
                    assert(decreases_to!(*fx => fx@));
                    assert(decreases_to!(fx@ => fx@[i as int]));
                }
                let p = &fx[i];
                let q = &fy[i];
                if p.name != q.name || !types_equal(&p.ty, &q.ty) {
                    assert(fields_view(fx@)[i as int] != fields_view(fy@)[i as int]);
                    return false;
                }
                i += 1;
            }
            assert(fields_view(fx@) =~= fields_view(fy@));
            true
        },
        (Type::Alias(x), Type::Alias(y)) => *x == *y,
        (Type::Enum { name: x, enumerators: ex }, Type::Enum { name: y, enumerators: ey }) => {
            if *x != *y {
                return false;
            }
            if ex.len() != ey.len() {
                assert(enumerators_view(ex@).len() != enumerators_view(ey@).len());
                return false;
            }
            let mut i: usize = 0;
            while i < ex.len()
                invariant
                    0 <= i <= ex.len(),
                    ex.len() == ey.len(),
                    forall|j: int| 0 <= j < i ==> enumerators_view(ex@)[j] == enumerators_view(ey@)[j],
                decreases ex.len() - i,
            {
                if ex[i].name != ey[i].name || ex[i].value != ey[i].value {
                    assert(enumerators_view(ex@)[i as int] != enumerators_view(ey@)[i as int]);
                    return false;
                }
                i += 1;
            }
            assert(enumerators_view(ex@) =~= enumerators_view(ey@));
            true
        },
        _ => false,
    }
}

} // verus!

verus! {

/// Mathematical model of an `Expression`.
pub enum ExprView {
    Identifier(Seq<char>, Option<SourceLocation>),
    IntegerLiteral(i64, Option<SourceLocation>),
    Unary(UnaryOp, Box<ExprView>, Option<SourceLocation>),
    Binary(BinaryOp, Box<ExprView>, Box<ExprView>, Option<SourceLocation>),
    Assignment(Box<ExprView>, Box<ExprView>, Option<SourceLocation>),
    Call(Box<ExprView>, Seq<ExprView>, Option<SourceLocation>),
    Index(Box<ExprView>, Box<ExprView>, Option<SourceLocation>),
    ArrayInitializer(Seq<ExprView>, Option<SourceLocation>),
    MemberAccess(Box<ExprView>, Seq<char>, bool, Option<SourceLocation>),
    /// Target, decrement, prefix, location.
    IncDec(Box<ExprView>, bool, bool, Option<SourceLocation>),
}

pub open spec fn expr_view(e: Expression) -> ExprView
    decreases e,
{
    match e {
        Expression::Identifier { name, location } => ExprView::Identifier(name@, location),
        Expression::IntegerLiteral { value, location } => ExprView::IntegerLiteral(value, location),
        Expression::Unary { op, expr, location } => ExprView::Unary(op, Box::new(expr_view(*expr)), location),
        Expression::Binary { op, lhs, rhs, location } => ExprView::Binary(
            op,
            Box::new(expr_view(*lhs)),
            Box::new(expr_view(*rhs)),
            location,
        ),
        Expression::Assignment { target, value, location } => ExprView::Assignment(
            Box::new(expr_view(*target)),
            Box::new(expr_view(*value)),
            location,
        ),
        Expression::Call { callee, args, location } => ExprView::Call(
            Box::new(expr_view(*callee)),
            exprs_view(args@),
            location,
        ),
        Expression::Index { base, index, location } => ExprView::Index(
            Box::new(expr_view(*base)),
            Box::new(expr_view(*index)),
            location,
        ),
        Expression::ArrayInitializer { elements, location } => ExprView::ArrayInitializer(exprs_view(elements@), location),
        Expression::MemberAccess { base, member, through_pointer, location } => ExprView::MemberAccess(
            Box::new(expr_view(*base)),
            member@,
            through_pointer,
            location,
        ),
        Expression::IncDec { target, decrement, prefix, location } => ExprView::IncDec(
            Box::new(expr_view(*target)),
            decrement,
            prefix,
            location,
        ),
    }
}

pub open spec fn exprs_view(s: Seq<Expression>) -> Seq<ExprView>
    decreases s,
{
    if s.len() == 0 {
        Seq::empty()
    } else {
        exprs_view(s.drop_last()).push(expr_view(s.last()))
    }
}

pub open spec fn opt_expr_view(e: Option<Expression>) -> Option<ExprView> {
    match e {
        Some(x) => Some(expr_view(x)),
        None => None,
    }
}

/// Mathematical model of a `Declarator`.
pub struct DeclaratorView {
    pub name: Seq<char>,
    pub ty: TypeView,
    pub initializer: Option<ExprView>,
}

/// Mathematical model of a `Declaration`.
pub struct DeclarationView {
    pub storage_class: Option<StorageClass>,
    pub declarators: Seq<DeclaratorView>,
}

pub open spec fn declarator_view(d: Declarator) -> DeclaratorView {
    DeclaratorView { name: d.name@, ty: d.ty@, initializer: opt_expr_view(d.initializer) }
}

pub open spec fn declarators_view(s: Seq<Declarator>) -> Seq<DeclaratorView>
    decreases s.len(),
{
    if s.len() == 0 {
        Seq::empty()
    } else {
        declarators_view(s.drop_last()).push(declarator_view(s.last()))
    }
}

pub open spec fn declaration_view(d: Declaration) -> DeclarationView {
    DeclarationView { storage_class: d.storage_class, declarators: declarators_view(d.declarators@) }
}

/// Mathematical model of a `Statement`.
pub enum StmtView {
    Block(Seq<ItemView>),
    If(ExprView, Box<StmtView>, Option<Box<StmtView>>),
    While(ExprView, Box<StmtView>),
    For(Option<ExprView>, Option<ExprView>, Option<ExprView>, Box<StmtView>),
    Return(Option<ExprView>),
    Expression(Option<ExprView>),
    InlineAsm(Seq<Seq<char>>),
}

/// Mathematical model of a `BlockItem`.
pub enum ItemView {
    Declaration(DeclarationView),
    Statement(StmtView),
}

pub open spec fn stmt_view(s: Statement) -> StmtView
    decreases s,
{
    match s {
        Statement::Block(b) => StmtView::Block(items_view(b.items@)),
        Statement::If { condition, then_branch, else_branch } => StmtView::If(
            expr_view(condition),
            Box::new(stmt_view(*then_branch)),
            match else_branch {
                Some(e) => Some(Box::new(stmt_view(*e))),
                None => None,
            },
        ),
        Statement::While { condition, body } => StmtView::While(expr_view(condition), Box::new(stmt_view(*body))),
        Statement::For { init, condition, update, body } => StmtView::For(
            opt_expr_view(init),
            opt_expr_view(condition),
            opt_expr_view(update),
            Box::new(stmt_view(*body)),
        ),
        Statement::Return(e) => StmtView::Return(opt_expr_view(e)),
        Statement::Expression(e) => StmtView::Expression(opt_expr_view(e)),
        Statement::InlineAsm(texts) => StmtView::InlineAsm(texts@.map_values(|t: String| t@)),
    }
}

pub open spec fn item_view(i: BlockItem) -> ItemView
    decreases i,
{
    match i {
        BlockItem::Declaration(d) => ItemView::Declaration(declaration_view(d)),
        BlockItem::Statement(s) => ItemView::Statement(stmt_view(s)),
    }
}

pub open spec fn items_view(s: Seq<BlockItem>) -> Seq<ItemView>
    decreases s,
{
    if s.len() == 0 {
        Seq::empty()
    } else {
        items_view(s.drop_last()).push(item_view(s.last()))
    }
}

/// Mathematical model of a `FunctionDeclaration`.
pub struct FunctionView {
    pub name: Seq<char>,
    pub return_type: TypeView,
    pub params: Seq<ParamView>,
    pub body: Seq<ItemView>,
}

/// Mathematical model of an `ExternalDeclaration`.
pub enum ExternalView {
    GlobalDeclaration(DeclarationView),
    Function(FunctionView),
    TypeDeclaration(TypeView),
}

pub open spec fn function_view(f: FunctionDeclaration) -> FunctionView {
    FunctionView { name: f.name@, return_type: f.return_type@, params: params_view(f.params@), body: items_view(f.body.items@) }
}

pub open spec fn external_view(e: ExternalDeclaration) -> ExternalView {
    match e {
        ExternalDeclaration::GlobalDeclaration(d) => ExternalView::GlobalDeclaration(declaration_view(d)),
        ExternalDeclaration::Function(f) => ExternalView::Function(function_view(f)),
        ExternalDeclaration::TypeDeclaration(t) => ExternalView::TypeDeclaration(t@),
    }
}

pub open spec fn externals_view(s: Seq<ExternalDeclaration>) -> Seq<ExternalView>
    decreases s.len(),
{
    if s.len() == 0 {
        Seq::empty()
    } else {
        externals_view(s.drop_last()).push(external_view(s.last()))
    }
}

impl View for Expression {
    type V = ExprView;

    open spec fn view(&self) -> ExprView {
        expr_view(*self)
    }
}

impl View for Statement {
    type V = StmtView;

    open spec fn view(&self) -> StmtView {
        stmt_view(*self)
    }
}

impl View for BlockItem {
    type V = ItemView;

    open spec fn view(&self) -> ItemView {
        item_view(*self)
    }
}

impl View for Block {
    type V = Seq<ItemView>;

    open spec fn view(&self) -> Seq<ItemView> {
        items_view(self.items@)
    }
}

impl View for Declarator {
    type V = DeclaratorView;

    open spec fn view(&self) -> DeclaratorView {
        declarator_view(*self)
    }
}

impl View for Declaration {
    type V = DeclarationView;

    open spec fn view(&self) -> DeclarationView {
        declaration_view(*self)
    }
}

impl View for FunctionDeclaration {
    type V = FunctionView;

    open spec fn view(&self) -> FunctionView {
        function_view(*self)
    }
}

impl View for ExternalDeclaration {
    type V = ExternalView;

    open spec fn view(&self) -> ExternalView {
        external_view(*self)
    }
}

impl View for TranslationUnit {
    type V = Seq<ExternalView>;

    open spec fn view(&self) -> Seq<ExternalView> {
        externals_view(self.top_level_items@)
    }
}

} // verus!

verus! {

/// Deep copy of a list of expressions.
fn copy_expression_list(v: &Vec<Expression>, Ghost(parent): Ghost<Expression>) -> (r: Vec<Expression>)
    requires
        decreases_to!(parent => v@),
    ensures
        exprs_view(r@) == exprs_view(v@),
    decreases parent, 0nat,
{
    let mut out: Vec<Expression> = Vec::new();
    let mut i: usize = 0;
    while i < v.len()
        invariant
            0 <= i <= v.len(),
            decreases_to!(parent => v@),
            exprs_view(out@) == exprs_view(v@.take(i as int)),
        decreases v.len() - i,
    {
        proof {
            assert(decreases_to!(v@ => v@[i as int]));
        }
        let ghost old_out = out@;
        out.push(copy_expression(&v[i]));
        assert(out@.drop_last() =~= old_out);
        assert(v@.take(i + 1).drop_last() =~= v@.take(i as int));
        i += 1;
    }
    assert(v@.take(v.len() as int) =~= v@);
    out
}

/// Deep copy of an expression.
pub fn copy_expression(e: &Expression) -> (r: Expression)
    ensures
        r@ == e@,
    decreases e, 1nat,
{
    match e {
        Expression::Identifier { name, location } => Expression::Identifier { name: name.clone(), location: *location },
        Expression::IntegerLiteral { value, location } => Expression::IntegerLiteral { value: *value, location: *location },
        Expression::Unary { op, expr, location } => Expression::Unary {
            op: *op,
            expr: Box::new(copy_expression(expr)),
            location: *location,
        },
        Expression::Binary { op, lhs, rhs, location } => Expression::Binary {
            op: *op,
            lhs: Box::new(copy_expression(lhs)),
            rhs: Box::new(copy_expression(rhs)),
            location: *location,
        },
        Expression::Assignment { target, value, location } => Expression::Assignment {
            target: Box::new(copy_expression(target)),
            value: Box::new(copy_expression(value)),
            location: *location,
        },
        Expression::Call { callee, args, location } => {
            proof {
                assert(decreases_to!(*e => *args));
                assert(decreases_to!(*args => args@));
            }
            Expression::Call {
                callee: Box::new(copy_expression(callee)),
                args: copy_expression_list(args, Ghost(*e)),
                location: *location,
            }
        },
        Expression::Index { base, index, location } => Expression::Index {
            base: Box::new(copy_expression(base)),
            index: Box::new(copy_expression(index)),
            location: *location,
        },
        Expression::ArrayInitializer { elements, location } => {
            proof {
                assert(decreases_to!(*e => *elements));
                assert(decreases_to!(*elements => elements@));
            }
            Expression::ArrayInitializer { elements: copy_expression_list(elements, Ghost(*e)), location: *location }
        },
        Expression::MemberAccess { base, member, through_pointer, location } => Expression::MemberAccess {
            base: Box::new(copy_expression(base)),
            member: member.clone(),
            through_pointer: *through_pointer,
            location: *location,
        },
        Expression::IncDec { target, decrement, prefix, location } => Expression::IncDec {
            target: Box::new(copy_expression(target)),
            decrement: *decrement,
            prefix: *prefix,
            location: *location,
        },
    }
}

fn copy_opt_expression(e: &Option<Expression>) -> (r: Option<Expression>)
    ensures
        opt_expr_view(r) == opt_expr_view(*e),
{
    match e {
        Some(x) => Some(copy_expression(x)),
        None => None,
    }
}

/// Deep copy of a declaration.
pub fn copy_declaration(d: &Declaration) -> (r: Declaration)
    ensures
        r@ == d@,
{
    let mut out: Vec<Declarator> = Vec::new();
    let ds = &d.declarators;
    let mut i: usize = 0;
    while i < ds.len()
        invariant
            0 <= i <= ds.len(),
            declarators_view(out@) == declarators_view(ds@.take(i as int)),
        decreases ds.len() - i,
    {
        let x = &ds[i];
        let ghost old_out = out@;
        out.push(Declarator { name: x.name.clone(), ty: copy_type(&x.ty), initializer: copy_opt_expression(&x.initializer) });
        assert(out@.drop_last() =~= old_out);
        assert(ds@.take(i + 1).drop_last() =~= ds@.take(i as int));
        i += 1;
    }
    assert(ds@.take(ds.len() as int) =~= ds@);
    Declaration { storage_class: d.storage_class, declarators: out }
}

/// Deep copy of a block.
#[verifier::loop_isolation(false)]
pub fn copy_block(b: &Block) -> (r: Block)
    ensures
        r@ == b@,
    decreases b, 1nat,
{
    let mut out: Vec<BlockItem> = Vec::new();
    let items = &b.items;
    let mut i: usize = 0;
    while i < items.len()
        invariant
            0 <= i <= items.len(),
            items_view(out@) == items_view(items@.take(i as int)),
        decreases items.len() - i,
    {
        proof {
            assert(decreases_to!(*b => *items));
            assert(decreases_to!(*items => items@));
            assert(decreases_to!(items@ => items@[i as int]));
        }
        let copied = match &items[i] {
            BlockItem::Declaration(d) => BlockItem::Declaration(copy_declaration(d)),
            BlockItem::Statement(s) => BlockItem::Statement(copy_statement(s)),
        };
        assert(item_view(copied) == item_view(items@[i as int]));
        let ghost old_out = out@;
        out.push(copied);
        assert(out@.drop_last() =~= old_out);
        assert(items@.take(i + 1).drop_last() =~= items@.take(i as int));
        assert(items@.take(i + 1).last() == items@[i as int]);
        i += 1;
    }
    assert(items@.take(items.len() as int) =~= items@);
    Block { items: out }
}

fn copy_strings(v: &Vec<String>) -> (r: Vec<String>)
    ensures
        r@.map_values(|t: String| t@) == v@.map_values(|t: String| t@),
{
    let mut out: Vec<String> = Vec::new();
    let mut i: usize = 0;
    while i < v.len()
        invariant
            0 <= i <= v.len(),
            out.len() == i,
            forall|j: int| 0 <= j < i ==> out@[j]@ == v@[j]@,
        decreases v.len() - i,
    {
        out.push(v[i].clone());
        i += 1;
    }
    assert(out@.map_values(|t: String| t@) =~= v@.map_values(|t: String| t@));
    out
}

/// Deep copy of a statement.
pub fn copy_statement(s: &Statement) -> (r: Statement)
    ensures
        r@ == s@,
    decreases s, 2nat,
{
    match s {
        Statement::Block(b) => Statement::Block(copy_block(b)),
        Statement::If { condition, then_branch, else_branch } => Statement::If {
            condition: copy_expression(condition),
            then_branch: Box::new(copy_statement(then_branch)),
            else_branch: match else_branch {
                Some(e) => Some(Box::new(copy_statement(e))),
                None => None,
            },
        },
        Statement::While { condition, body } => Statement::While {
            condition: copy_expression(condition),
            body: Box::new(copy_statement(body)),
        },
        Statement::For { init, condition, update, body } => Statement::For {
            init: copy_opt_expression(init),
            condition: copy_opt_expression(condition),
            update: copy_opt_expression(update),
            body: Box::new(copy_statement(body)),
        },
        Statement::Return(e) => Statement::Return(copy_opt_expression(e)),
        Statement::Expression(e) => Statement::Expression(copy_opt_expression(e)),
        Statement::InlineAsm(texts) => Statement::InlineAsm(copy_strings(texts)),
    }
}

/// Deep copy of a list of parameters.
pub fn copy_parameters(params: &Vec<Parameter>) -> (r: Vec<Parameter>)
    ensures
        params_view(r@) == params_view(params@),
{
    let mut out: Vec<Parameter> = Vec::new();
    let mut i: usize = 0;
    while i < params.len()
        invariant
            0 <= i <= params.len(),
            params_view(out@) == params_view(params@.take(i as int)),
        decreases params.len() - i,
    {
        let p = &params[i];
        let ghost old_out = out@;
        out.push(Parameter { name: copy_opt_string(&p.name), ty: copy_type(&p.ty), location: p.location });
        assert(out@.drop_last() =~= old_out);
        assert(params@.take(i + 1).drop_last() =~= params@.take(i as int));
        assert(params@.take(i + 1).last() == params@[i as int]);
        assert(param_view(out@.last()) == param_view(params@[i as int]));
        i += 1;
    }
    assert(params@.take(params.len() as int) =~= params@);
    out
}

/// Deep copy of a function definition.
pub fn copy_function(f: &FunctionDeclaration) -> (r: FunctionDeclaration)
    ensures
        r@ == f@,
{
    FunctionDeclaration {
        name: f.name.clone(),
        return_type: copy_type(&f.return_type),
        params: copy_parameters(&f.params),
        body: copy_block(&f.body),
    }
}

impl Clone for Type {
    fn clone(&self) -> (r: Self)
        ensures
            r@ == self@,
    {
        copy_type(self)
    }
}

impl Clone for Expression {
    fn clone(&self) -> (r: Self)
        ensures
            r@ == self@,
    {
        copy_expression(self)
    }
}

impl Clone for Statement {
    fn clone(&self) -> (r: Self)
        ensures
            r@ == self@,
    {
        copy_statement(self)
    }
}

impl Clone for Block {
    fn clone(&self) -> (r: Self)
        ensures
            r@ == self@,
    {
        copy_block(self)
    }
}

impl Clone for Declaration {
    fn clone(&self) -> (r: Self)
        ensures
            r@ == self@,
    {
        copy_declaration(self)
    }
}

impl Clone for FunctionDeclaration {
    fn clone(&self) -> (r: Self)
        ensures
            r@ == self@,
    {
        copy_function(self)
    }
}

impl PartialEq for Type {
    fn eq(&self, other: &Self) -> (r: bool) {
        types_equal(self, other)
    }
}

impl vstd::std_specs::cmp::PartialEqSpecImpl for Type {
    open spec fn obeys_eq_spec() -> bool {
        true
    }

    open spec fn eq_spec(&self, other: &Self) -> bool {
        self@ == other@
    }
}

impl Eq for Type {
}

} // verus!

verus! {

pub proof fn lemma_exprs_view_push(s: Seq<Expression>, x: Expression)
    ensures
        exprs_view(s.push(x)) == exprs_view(s).push(expr_view(x)),
{
    assert(s.push(x).drop_last() =~= s);
}

pub proof fn lemma_items_view_push(s: Seq<BlockItem>, x: BlockItem)
    ensures
        items_view(s.push(x)) == items_view(s).push(item_view(x)),
{
    assert(s.push(x).drop_last() =~= s);
}

pub proof fn lemma_declarators_view_push(s: Seq<Declarator>, x: Declarator)
    ensures
        declarators_view(s.push(x)) == declarators_view(s).push(declarator_view(x)),
{
    assert(s.push(x).drop_last() =~= s);
}

pub proof fn lemma_externals_view_push(s: Seq<ExternalDeclaration>, x: ExternalDeclaration)
    ensures
        externals_view(s.push(x)) == externals_view(s).push(external_view(x)),
{
    assert(s.push(x).drop_last() =~= s);
}

} // verus!
