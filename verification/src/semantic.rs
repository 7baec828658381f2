use vstd::prelude::*;

use crate::ast::{
    all_constant, constant_value, enumerators_view, copy_type, evaluate_constant, fields_view, lemma_fields_view, params_view, types_equal, BinaryOp, BuiltinType, Expression,
    FieldView, ParamView, expr_location, Block, BlockItem, Declarator, ExternalDeclaration, FunctionDeclaration,
    Statement, TranslationUnit, Parameter, StructField, Type, TypeView, UnaryOp, field_view,
};
use crate::error::{CompilerError, SourceLocation};
use crate::symbols::{assoc_get, find_last, lemma_find_last_push, SymbolMap};
use crate::text::{concat3, dec_nat, push_str, str_to_string, u64_to_decimal};

verus! {

// ---------------------------------------------------------------------------
// Data structures
// ---------------------------------------------------------------------------

/// Function signature metadata collected during semantic analysis.
#[derive(Debug)]
pub struct FunctionSignature {
    pub return_type: Type,
    pub parameter_types: Vec<Type>,
}

/// Model of a function signature.
pub struct SigView {
    pub return_type: TypeView,
    pub parameter_types: Seq<TypeView>,
}

impl View for FunctionSignature {
    type V = SigView;

    open spec fn view(&self) -> SigView {
        SigView {
            return_type: self.return_type@,
            parameter_types: self.parameter_types@.map_values(|t: Type| t@),
        }
    }
}

/// Semantic information produced by analysis and reusable by later stages.
#[derive(Debug)]
pub struct SemanticInfo {
    /// Collected function signatures indexed by function name.
    pub function_signatures: SymbolMap<FunctionSignature>,
    /// Collected global variable types indexed by symbol name.
    pub global_symbols: SymbolMap<Type>,
    /// Types named by `typedef`, as the names resolve.
    pub type_aliases: SymbolMap<Type>,
    /// Struct definitions by tag.
    pub struct_definitions: SymbolMap<Type>,
    /// Enumeration constants and their values.
    pub enum_constants: SymbolMap<i64>,
}

/// Model of the semantic information: association lists of functions, globals, and the
/// type definitions of the unit.
pub struct InfoView {
    pub functions: Seq<(Seq<char>, SigView)>,
    pub globals: Seq<(Seq<char>, TypeView)>,
    pub typedefs: Seq<(Seq<char>, TypeView)>,
    pub structs: Seq<(Seq<char>, TypeView)>,
    pub enum_consts: Seq<(Seq<char>, i64)>,
}

impl View for SemanticInfo {
    type V = InfoView;

    open spec fn view(&self) -> InfoView {
        InfoView {
            functions: self.function_signatures@,
            globals: self.global_symbols@,
            typedefs: self.type_aliases@,
            structs: self.struct_definitions@,
            enum_consts: self.enum_constants@,
        }
    }
}

/// A type as declarations mean it: a `typedef` name replaced by what it names, an
/// enumeration by `int`, a struct tag without a body by the struct defined under it (also
/// under pointers and arrays).
pub open spec fn spec_normalize(info: InfoView, t: TypeView) -> TypeView
    decreases t,
{
    match t {
        TypeView::Alias(n) => match assoc_get(info.typedefs, n) {
            Some(u) => u,
            None => t,
        },
        TypeView::Enum(_, _) => TypeView::Builtin(BuiltinType::Int),
        TypeView::Struct(name, fields) => if fields.len() == 0 {
            match assoc_get(info.structs, name) {
                Some(u) => u,
                None => t,
            }
        } else {
            t
        },
        TypeView::Pointer(x) => TypeView::Pointer(Box::new(spec_normalize(info, *x))),
        TypeView::Array(x, n) => TypeView::Array(Box::new(spec_normalize(info, *x)), n),
        _ => t,
    }
}

/// Records the struct or the enumeration constants that a declared type defines.
pub open spec fn spec_record_definitions(info: InfoView, t: TypeView) -> InfoView
    decreases t,
{
    match t {
        TypeView::Struct(name, fields) => if fields.len() > 0 {
            InfoView { structs: info.structs.push((name, t)), ..info }
        } else {
            info
        },
        TypeView::Enum(_, es) => InfoView { enum_consts: info.enum_consts + es, ..info },
        TypeView::Pointer(x) => spec_record_definitions(info, *x),
        TypeView::Array(x, _) => spec_record_definitions(info, *x),
        _ => info,
    }
}

/// The definitions that the declarators of one top-level declaration make.
pub open spec fn spec_declaration_types(info: InfoView, is_typedef: bool, ds: Seq<Declarator>) -> InfoView
    decreases ds.len(),
{
    if ds.len() == 0 {
        info
    } else {
        let i1 = spec_record_definitions(spec_declaration_types(info, is_typedef, ds.drop_last()), ds.last().ty@);
        if is_typedef {
            InfoView { typedefs: i1.typedefs.push((ds.last().name@, spec_normalize(i1, ds.last().ty@))), ..i1 }
        } else {
            i1
        }
    }
}

/// The type definitions of the top-level items, in order.
pub open spec fn spec_type_tables(info: InfoView, items: Seq<ExternalDeclaration>) -> InfoView
    decreases items.len(),
{
    if items.len() == 0 {
        info
    } else {
        let i1 = spec_type_tables(info, items.drop_last());
        match items.last() {
            ExternalDeclaration::GlobalDeclaration(d) => spec_declaration_types(i1,
                d.storage_class == Some(crate::ast::StorageClass::Typedef), d.declarators@),
            ExternalDeclaration::TypeDeclaration(t) => spec_record_definitions(i1, t@),
            ExternalDeclaration::Function(_) => i1,
        }
    }
}

/// The information that symbol collection starts from: the unit's type definitions.
pub open spec fn spec_start_info(items: Seq<ExternalDeclaration>) -> InfoView {
    spec_type_tables(spec_empty_info(), items)
}

/// Context for semantic checks inside a function body.
#[derive(Debug)]
pub struct FunctionContext {
    pub scopes: Vec<SymbolMap<Type>>,
    pub return_type: Type,
}

/// Model of a function context: the scope stack (innermost last) and the return type.
pub struct CtxView {
    pub scopes: Seq<Seq<(Seq<char>, TypeView)>>,
    pub return_type: TypeView,
}

impl View for FunctionContext {
    type V = CtxView;

    open spec fn view(&self) -> CtxView {
        CtxView {
            scopes: self.scopes@.map_values(|m: SymbolMap<Type>| m@),
            return_type: self.return_type@,
        }
    }
}

/// Semantic analyzer entrypoint.
#[derive(Debug, Default)]
pub struct SemanticAnalyzer;

/// Type and lvalue metadata for analyzed expressions.
struct ExprInfo {
    ty: Type,
    is_lvalue: bool,
}

/// Model of analyzed expression metadata.
pub struct ExprView {
    pub ty: TypeView,
    pub is_lvalue: bool,
}

impl View for ExprInfo {
    type V = ExprView;

    closed spec fn view(&self) -> ExprView {
        ExprView { ty: self.ty@, is_lvalue: self.is_lvalue }
    }
}

// ---------------------------------------------------------------------------
// Typing rules on type models
// ---------------------------------------------------------------------------

pub open spec fn int_view() -> TypeView {
    TypeView::Builtin(BuiltinType::Int)
}

pub open spec fn void_view() -> TypeView {
    TypeView::Builtin(BuiltinType::Void)
}

/// `int` and `char` are integer-like.
pub open spec fn spec_is_integer_like(t: TypeView) -> bool {
    t == TypeView::Builtin(BuiltinType::Int) || t == TypeView::Builtin(BuiltinType::Char)
}

/// Integer-like types and pointers are scalar-like.
pub open spec fn spec_is_scalar_like(t: TypeView) -> bool {
    spec_is_integer_like(t) || t is Pointer
}

/// Strict compatibility: equal types, or a pointer and an array whose element types are compatible.
pub open spec fn spec_types_compatible(l: TypeView, r: TypeView) -> bool
    decreases l,
{
    if l == r {
        true
    } else {
        match (l, r) {
            (TypeView::Pointer(le), TypeView::Array(re, _)) => spec_types_compatible(*le, *re),
            (TypeView::Array(le, _), TypeView::Pointer(re)) => spec_types_compatible(*le, *re),
            _ => false,
        }
    }
}

/// Result type of `l + r` when one side is a pointer and the other integer-like.
pub open spec fn spec_pointer_add_result(l: TypeView, r: TypeView) -> Option<TypeView> {
    if l is Pointer && spec_is_integer_like(r) {
        Some(l)
    } else if spec_is_integer_like(l) && r is Pointer {
        Some(r)
    } else {
        None
    }
}

/// Result type of `l - r` for pointer minus integer, or compatible pointer minus pointer.
pub open spec fn spec_pointer_subtract_result(l: TypeView, r: TypeView) -> Option<TypeView> {
    if l is Pointer && spec_is_integer_like(r) {
        Some(l)
    } else {
        match (l, r) {
            (TypeView::Pointer(le), TypeView::Pointer(re)) => if spec_types_compatible(*le, *re) {
                Some(int_view())
            } else {
                None
            },
            _ => None,
        }
    }
}

/// Assignable expression forms: identifiers, index expressions, dereferences and member
/// accesses.
pub open spec fn spec_is_lvalue(e: Expression) -> bool {
    match e {
        Expression::Identifier { .. } => true,
        Expression::Index { .. } => true,
        Expression::Unary { op: UnaryOp::Dereference, .. } => true,
        Expression::MemberAccess { .. } => true,
        _ => false,
    }
}

/// Type compatibility is reflexive and symmetric: every type is compatible with itself, and
/// `a` is compatible with `b` exactly when `b` is compatible with `a`.
pub proof fn law_compatibility_is_reflexive_and_symmetric(a: TypeView, b: TypeView)
    ensures
        spec_types_compatible(a, a),
        spec_types_compatible(a, b) == spec_types_compatible(b, a),
    decreases a,
{
    if a != b {
        match (a, b) {
            (TypeView::Pointer(le), TypeView::Array(re, _)) => law_compatibility_is_reflexive_and_symmetric(*le, *re),
            (TypeView::Array(le, _), TypeView::Pointer(re)) => law_compatibility_is_reflexive_and_symmetric(*le, *re),
            _ => {},
        }
    }
}

/// Whether `value`, of type `vt`, may be stored where a `t` is expected: compatible types,
/// one integer-like type to another (`char` to `int` and back), or the literal `0` to a
/// pointer.
pub open spec fn spec_assignable(t: TypeView, value: Expression, vt: TypeView) -> bool {
    ||| spec_types_compatible(t, vt)
    ||| spec_is_integer_like(t) && spec_is_integer_like(vt)
    ||| t is Pointer && (value matches Expression::IntegerLiteral { value: v, .. } && v == 0)
}

// ---------------------------------------------------------------------------
// Name resolution on models
// ---------------------------------------------------------------------------

/// Looks a name up in the scope stack, innermost scope first.
pub open spec fn spec_lookup_scopes(scopes: Seq<Seq<(Seq<char>, TypeView)>>, name: Seq<char>) -> Option<TypeView>
    decreases scopes.len(),
{
    if scopes.len() == 0 {
        None
    } else {
        match assoc_get(scopes.last(), name) {
            Some(t) => Some(t),
            None => spec_lookup_scopes(scopes.drop_last(), name),
        }
    }
}

/// Looks a variable up in local scopes, then among globals.
pub open spec fn spec_lookup_variable(ctx: CtxView, info: InfoView, name: Seq<char>) -> Option<TypeView> {
    match spec_lookup_scopes(ctx.scopes, name) {
        Some(t) => Some(t),
        None => assoc_get(info.globals, name),
    }
}

/// The type of the field named `member` in a struct's field list, if any.
pub open spec fn spec_field_type(fields: Seq<FieldView>, member: Seq<char>) -> Option<TypeView>
    decreases fields.len(),
{
    if fields.len() == 0 {
        None
    } else if fields[0].name == member {
        Some(fields[0].ty)
    } else {
        spec_field_type(fields.drop_first(), member)
    }
}

/// The struct type that a member access reads from.
pub open spec fn spec_member_base_fields(t: TypeView, through_pointer: bool) -> Option<Seq<FieldView>> {
    if through_pointer {
        match t {
            TypeView::Pointer(inner) => match *inner {
                TypeView::Struct(_, fields) => Some(fields),
                _ => None,
            },
            _ => None,
        }
    } else {
        match t {
            TypeView::Struct(_, fields) => Some(fields),
            _ => None,
        }
    }
}

// ---------------------------------------------------------------------------
// Expression typing on models
// ---------------------------------------------------------------------------

pub open spec fn ev(ty: TypeView, is_lvalue: bool) -> ExprView {
    ExprView { ty, is_lvalue }
}

/// Typing of a binary expression from the typings of its operands.
pub open spec fn spec_binary(op: BinaryOp, l: TypeView, r: TypeView) -> Option<ExprView> {
    match op {
        BinaryOp::Multiply | BinaryOp::Modulo | BinaryOp::Divide => if spec_is_integer_like(l) && spec_is_integer_like(r) && l == r {
            Some(ev(l, false))
        } else {
            None
        },
        BinaryOp::ShiftLeft | BinaryOp::ShiftRight | BinaryOp::BitwiseAnd | BinaryOp::BitwiseOr | BinaryOp::BitwiseXor =>
            if spec_is_integer_like(l) && spec_is_integer_like(r) && l == r {
            Some(ev(l, false))
        } else {
            None
        },
        BinaryOp::Add => if spec_is_integer_like(l) && spec_is_integer_like(r) && l == r {
            Some(ev(l, false))
        } else {
            match spec_pointer_add_result(l, r) {
                Some(t) => Some(ev(t, false)),
                None => None,
            }
        },
        BinaryOp::Subtract => if spec_is_integer_like(l) && spec_is_integer_like(r) && l == r {
            Some(ev(l, false))
        } else {
            match spec_pointer_subtract_result(l, r) {
                Some(t) => Some(ev(t, false)),
                None => None,
            }
        },
        BinaryOp::Less | BinaryOp::LessEqual | BinaryOp::Greater | BinaryOp::GreaterEqual =>
            if spec_is_integer_like(l) && spec_is_integer_like(r) && l == r {
            Some(ev(int_view(), false))
        } else {
            None
        },
        BinaryOp::Equal | BinaryOp::NotEqual => if spec_types_compatible(l, r) {
            Some(ev(int_view(), false))
        } else {
            None
        },
        BinaryOp::LogicalAnd | BinaryOp::LogicalOr => if spec_is_scalar_like(l) && spec_is_scalar_like(r) {
            Some(ev(int_view(), false))
        } else {
            None
        },
    }
}

/// Typing of a unary expression from the typing of its operand.
pub open spec fn spec_unary(op: UnaryOp, inner: ExprView) -> Option<ExprView> {
    match op {
        UnaryOp::AddressOf => if inner.is_lvalue {
            Some(ev(TypeView::Pointer(Box::new(inner.ty)), false))
        } else {
            None
        },
        UnaryOp::Dereference => match inner.ty {
            TypeView::Pointer(p) => Some(ev(*p, true)),
            _ => None,
        },
        UnaryOp::Plus | UnaryOp::Minus => if spec_is_integer_like(inner.ty) {
            Some(ev(inner.ty, false))
        } else {
            None
        },
        UnaryOp::LogicalNot => if spec_is_scalar_like(inner.ty) {
            Some(ev(int_view(), false))
        } else {
            None
        },
    }
}

/// Every argument is well typed and compatible with the parameter type at its position.
pub open spec fn spec_args_ok(ctx: CtxView, info: InfoView, args: Seq<Expression>, params: Seq<TypeView>) -> bool
    decreases args,
{
    if args.len() == 0 {
        true
    } else {
        spec_args_ok(ctx, info, args.drop_last(), params) && match spec_expr(ctx, info, args.last()) {
            Some(a) => spec_assignable(params[args.len() - 1], args.last(), a.ty),
            None => false,
        }
    }
}

/// Typing of an expression: `None` when the expression is rejected.
pub open spec fn spec_expr(ctx: CtxView, info: InfoView, e: Expression) -> Option<ExprView>
    decreases e,
{
    match e {
        Expression::Identifier { name, .. } => match spec_lookup_variable(ctx, info, name@) {
            Some(t) => Some(ev(spec_normalize(info, t), true)),
            None => match assoc_get(info.functions, name@) {
                Some(sig) => Some(ev(TypeView::Function(Box::new(sig.return_type), Seq::empty()), false)),
                None => match assoc_get(info.enum_consts, name@) {
                    Some(_) => Some(ev(int_view(), false)),
                    None => None,
                },
            },
        },
        Expression::IntegerLiteral { .. } => Some(ev(int_view(), false)),
        Expression::Unary { op, expr, .. } => match spec_expr(ctx, info, *expr) {
            Some(inner) => spec_unary(op, inner),
            None => None,
        },
        Expression::Binary { op, lhs, rhs, .. } => match (spec_expr(ctx, info, *lhs), spec_expr(ctx, info, *rhs)) {
            (Some(l), Some(r)) => spec_binary(op, l.ty, r.ty),
            _ => None,
        },
        Expression::Assignment { target, value, .. } => match (spec_expr(ctx, info, *target), spec_expr(ctx, info, *value)) {
            (Some(l), Some(r)) => if l.is_lvalue && spec_is_lvalue(*target) && spec_assignable(l.ty, *value, r.ty) {
                Some(ev(l.ty, false))
            } else {
                None
            },
            _ => None,
        },
        Expression::Call { callee, args, .. } => match *callee {
            Expression::Identifier { name, .. } => if spec_lookup_scopes(ctx.scopes, name@) is Some
                && assoc_get(info.functions, name@) is None {
                None
            } else {
                match assoc_get(info.functions, name@) {
                    Some(sig) => if sig.parameter_types.len() == args@.len() && spec_args_ok(ctx, info, args@, sig.parameter_types) {
                        Some(ev(sig.return_type, false))
                    } else {
                        None
                    },
                    None => None,
                }
            },
            _ => None,
        },
        Expression::Index { base, index, .. } => match (spec_expr(ctx, info, *base), spec_expr(ctx, info, *index)) {
            (Some(b), Some(i)) => if !spec_is_integer_like(i.ty) {
                None
            } else {
                match b.ty {
                    TypeView::Array(el, _) => Some(ev(*el, true)),
                    TypeView::Pointer(el) => Some(ev(*el, true)),
                    _ => None,
                }
            },
            _ => None,
        },
        Expression::ArrayInitializer { .. } => None,
        Expression::MemberAccess { base, member, through_pointer, .. } => match spec_expr(ctx, info, *base) {
            Some(b) => match spec_member_base_fields(spec_normalize(info, b.ty), through_pointer) {
                Some(fields) => match spec_field_type(fields, member@) {
                    Some(t) => Some(ev(spec_normalize(info, t), true)),
                    None => None,
                },
                None => None,
            },
            None => None,
        },
        Expression::IncDec { target, .. } => match spec_expr(ctx, info, *target) {
            Some(t) => if t.is_lvalue && spec_is_lvalue(*target) && spec_is_scalar_like(t.ty) {
                Some(ev(t.ty, false))
            } else {
                None
            },
            None => None,
        },
    }
}


// ---------------------------------------------------------------------------
// Diagnostics on models
// ---------------------------------------------------------------------------

/// The message and location of a semantic error.
pub struct SemDiag {
    pub message: Seq<char>,
    pub location: Option<SourceLocation>,
}

pub open spec fn diag(message: Seq<char>, location: Option<SourceLocation>) -> SemDiag {
    SemDiag { message, location }
}

/// `e` is the semantic error with that message and location.
pub open spec fn reports(e: CompilerError, d: SemDiag) -> bool {
    e matches CompilerError::Semantic(x) && x.message@ == d.message && x.location == d.location
}

/// Message of a rejected unary expression.
pub open spec fn unary_message(op: UnaryOp) -> Seq<char> {
    match op {
        UnaryOp::AddressOf => "address-of requires an lvalue operand"@,
        UnaryOp::Dereference => "dereference requires a pointer operand"@,
        UnaryOp::Plus | UnaryOp::Minus => "unary arithmetic requires integer-like operand"@,
        UnaryOp::LogicalNot => "logical not requires a scalar-like operand"@,
    }
}

/// Message of a rejected binary expression.
pub open spec fn binary_message(op: BinaryOp) -> Seq<char> {
    match op {
        BinaryOp::Multiply | BinaryOp::Modulo | BinaryOp::Divide => "arithmetic operators require matching integer-like operands"@,
        BinaryOp::ShiftLeft | BinaryOp::ShiftRight | BinaryOp::BitwiseAnd | BinaryOp::BitwiseOr | BinaryOp::BitwiseXor =>
            "bitwise operators require matching integer-like operands"@,
        BinaryOp::Add => "addition requires matching integer-like operands or pointer with integer-like operand"@,
        BinaryOp::Subtract => "subtraction requires matching integer-like operands, pointer-integer, or compatible pointer-pointer operands"@,
        BinaryOp::Equal | BinaryOp::NotEqual => "equality operators require compatible operand types"@,
        BinaryOp::LogicalAnd | BinaryOp::LogicalOr => "logical operators require scalar-like operands"@,
        _ => "relational operators require matching integer-like operands"@,
    }
}

/// The error of the first argument of a call that is rejected (meaningful when
/// `spec_args_ok` fails).
pub open spec fn args_diag(ctx: CtxView, info: InfoView, args: Seq<Expression>, params: Seq<TypeView>,
    name: Seq<char>, location: Option<SourceLocation>) -> SemDiag
    decreases args,
{
    if args.len() == 0 {
        diag(Seq::empty(), None)
    } else if !spec_args_ok(ctx, info, args.drop_last(), params) {
        args_diag(ctx, info, args.drop_last(), params, name, location)
    } else {
        match spec_expr(ctx, info, args.last()) {
            Some(_) => diag("argument type mismatch in call to '"@ + name + "'"@, location),
            None => expr_diag(ctx, info, args.last()),
        }
    }
}

/// The error reported for an expression that `spec_expr` rejects: that of the first
/// operand rejected, else the expression's own.
pub open spec fn expr_diag(ctx: CtxView, info: InfoView, e: Expression) -> SemDiag
    decreases e,
{
    match e {
        Expression::Identifier { name, location } => diag("undeclared identifier '"@ + name@ + "'"@, location),
        Expression::IntegerLiteral { location, .. } => diag(Seq::empty(), location),
        Expression::Unary { op, expr, location } => if spec_expr(ctx, info, *expr) is None {
            expr_diag(ctx, info, *expr)
        } else {
            diag(unary_message(op), location)
        },
        Expression::Binary { op, lhs, rhs, location } => if spec_expr(ctx, info, *lhs) is None {
            expr_diag(ctx, info, *lhs)
        } else if spec_expr(ctx, info, *rhs) is None {
            expr_diag(ctx, info, *rhs)
        } else {
            diag(binary_message(op), location)
        },
        Expression::Assignment { target, value, location } => if spec_expr(ctx, info, *target) is None {
            expr_diag(ctx, info, *target)
        } else if spec_expr(ctx, info, *value) is None {
            expr_diag(ctx, info, *value)
        } else if !(spec_expr(ctx, info, *target)->0.is_lvalue && spec_is_lvalue(*target)) {
            diag("assignment target is not an lvalue"@, location)
        } else {
            diag("assignment types are incompatible"@, location)
        },
        Expression::Call { callee, args, location } => match *callee {
            Expression::Identifier { name, .. } => if spec_lookup_scopes(ctx.scopes, name@) is Some
                && assoc_get(info.functions, name@) is None {
                diag("'"@ + name@ + "' is not callable"@, location)
            } else {
                match assoc_get(info.functions, name@) {
                    Some(sig) => if sig.parameter_types.len() != args@.len() {
                        diag("function '"@ + name@ + "' expects "@ + dec_nat(sig.parameter_types.len() as nat)
                            + " arguments but got "@ + dec_nat(args@.len()), location)
                    } else {
                        args_diag(ctx, info, args@, sig.parameter_types, name@, location)
                    },
                    None => diag("call to undeclared function '"@ + name@ + "'"@, location),
                }
            },
            _ => diag("call target must be a function identifier"@, location),
        },
        Expression::Index { base, index, location } => if spec_expr(ctx, info, *base) is None {
            expr_diag(ctx, info, *base)
        } else if spec_expr(ctx, info, *index) is None {
            expr_diag(ctx, info, *index)
        } else if !spec_is_integer_like(spec_expr(ctx, info, *index)->0.ty) {
            diag("index expression must be integer-like"@, location)
        } else {
            diag("index base must be array or pointer"@, location)
        },
        Expression::ArrayInitializer { location, .. } => diag("array initializer is only allowed in an array declaration"@, location),
        Expression::MemberAccess { base, member, through_pointer, location } => if spec_expr(ctx, info, *base) is None {
            expr_diag(ctx, info, *base)
        } else if spec_member_base_fields(spec_normalize(info, spec_expr(ctx, info, *base)->0.ty), through_pointer) is None {
            if through_pointer {
                diag("member access through '->' requires a pointer to a struct"@, location)
            } else {
                diag("member access requires a struct operand"@, location)
            }
        } else {
            diag("struct has no member named '"@ + member@ + "'"@, location)
        },
        Expression::IncDec { target, location, .. } => if spec_expr(ctx, info, *target) is None {
            expr_diag(ctx, info, *target)
        } else if !(spec_expr(ctx, info, *target)->0.is_lvalue && spec_is_lvalue(*target)) {
            diag("increment or decrement target is not an lvalue"@, location)
        } else {
            diag("increment or decrement requires a scalar-like operand"@, location)
        },
    }
}

pub proof fn lemma_args_prefix_fail(ctx: CtxView, info: InfoView, args: Seq<Expression>, params: Seq<TypeView>, k: int,
    name: Seq<char>, location: Option<SourceLocation>)
    requires
        0 <= k <= args.len(),
        !spec_args_ok(ctx, info, args.take(k), params),
    ensures
        !spec_args_ok(ctx, info, args, params),
        args_diag(ctx, info, args, params, name, location) == args_diag(ctx, info, args.take(k), params, name, location),
    decreases args.len() - k,
{
    if k < args.len() {
        let t = args.take(k + 1);
        assert(t.drop_last() =~= args.take(k));
        lemma_args_prefix_fail(ctx, info, args, params, k + 1, name, location);
    } else {
        assert(args.take(k) =~= args);
    }
}

// ---------------------------------------------------------------------------
// Executable type helpers
// ---------------------------------------------------------------------------

fn sem_err(message: &str, location: Option<SourceLocation>) -> (r: CompilerError)
    ensures
        reports(r, diag(message@, location)),
{
    CompilerError::semantic_with_location(str_to_string(message), location)
}

fn builtin(b: BuiltinType) -> (r: Type)
    ensures
        r@ == TypeView::Builtin(b),
{
    Type::Builtin(b)
}

/// Returns whether a type is integer-like in the current subset.
fn is_integer_like(ty: &Type) -> (r: bool)
    ensures
        r == spec_is_integer_like(ty@),
{
    match ty {
        Type::Builtin(BuiltinType::Int) | Type::Builtin(BuiltinType::Char) => true,
        _ => false,
    }
}

/// A type as declarations mean it (see `spec_normalize`).
fn normalize_type(info: &SemanticInfo, t: &Type) -> (r: Type)
    ensures
        r@ == spec_normalize(info@, t@),
    decreases t,
{
    match t {
        Type::Alias(n) => match info.type_aliases.get(n) {
            Some(u) => copy_type(u),
            None => copy_type(t),
        },
        Type::Enum { .. } => Type::Builtin(BuiltinType::Int),
        Type::Struct { name, fields } => {
            proof { lemma_fields_view(fields@); }
            if fields.len() == 0 {
                match info.struct_definitions.get(name) {
                    Some(u) => copy_type(u),
                    None => copy_type(t),
                }
            } else {
                copy_type(t)
            }
        },
        Type::Pointer(x) => Type::Pointer(Box::new(normalize_type(info, x))),
        Type::Array { element, size } => Type::Array { element: Box::new(normalize_type(info, element)), size: *size },
        _ => copy_type(t),
    }
}

/// Records the struct or the enumeration constants that a declared type defines.
fn record_definitions(info: &mut SemanticInfo, t: &Type)
    ensures
        final(info)@ == spec_record_definitions(old(info)@, t@),
    decreases t,
{
    match t {
        Type::Struct { name, fields } => {
            proof { lemma_fields_view(fields@); }
            if fields.len() > 0 {
                info.struct_definitions.insert(name.clone(), copy_type(t));
            }
        },
        Type::Enum { enumerators, .. } => {
            let ghost before = info.enum_constants@;
            let mut i: usize = 0;
            while i < enumerators.len()
                invariant
                    0 <= i <= enumerators.len(),
                    info@ == (InfoView { enum_consts: before + enumerators_view(enumerators@.take(i as int)), ..old(info)@ }),
                decreases enumerators.len() - i,
            {
                info.enum_constants.insert(enumerators[i].name.clone(), enumerators[i].value);
                assert(enumerators_view(enumerators@.take(i + 1)) =~= enumerators_view(enumerators@.take(i as int)).push(
                    (enumerators@[i as int].name@, enumerators@[i as int].value)));
                i += 1;
            }
            assert(enumerators@.take(enumerators.len() as int) =~= enumerators@);
        },
        Type::Pointer(x) => record_definitions(info, x),
        Type::Array { element, .. } => record_definitions(info, element),
        _ => {},
    }
}

/// The type definitions of the top-level items, in order.
fn collect_type_tables(unit: &TranslationUnit, info: &mut SemanticInfo)
    ensures
        final(info)@ == spec_type_tables(old(info)@, unit.top_level_items@),
{
    let ghost i0 = info@;
    let items = &unit.top_level_items;
    let mut i: usize = 0;
    while i < items.len()
        invariant
            0 <= i <= items.len(),
            info@ == spec_type_tables(i0, items@.take(i as int)),
        decreases items.len() - i,
    {
        let ghost t = items@.take(i + 1);
        assert(t.drop_last() =~= items@.take(i as int));
        assert(t.last() == items@[i as int]);
        match &items[i] {
            ExternalDeclaration::GlobalDeclaration(d) => {
                let is_typedef = matches!(d.storage_class, Some(crate::ast::StorageClass::Typedef));
                let ghost i1 = info@;
                let ds = &d.declarators;
                let mut j: usize = 0;
                while j < ds.len()
                    invariant
                        0 <= j <= ds.len(),
                        is_typedef == (d.storage_class == Some(crate::ast::StorageClass::Typedef)),
                        info@ == spec_declaration_types(i1, is_typedef, ds@.take(j as int)),
                    decreases ds.len() - j,
                {
                    let ghost u = ds@.take(j + 1);
                    assert(u.drop_last() =~= ds@.take(j as int));
                    assert(u.last() == ds@[j as int]);
                    record_definitions(info, &ds[j].ty);
                    if is_typedef {
                        let resolved = normalize_type(info, &ds[j].ty);
                        info.type_aliases.insert(ds[j].name.clone(), resolved);
                    }
                    j += 1;
                }
                assert(ds@.take(ds.len() as int) =~= ds@);
            },
            ExternalDeclaration::TypeDeclaration(ty) => record_definitions(info, ty),
            ExternalDeclaration::Function(_) => {},
        }
        i += 1;
    }
    assert(items@.take(items.len() as int) =~= items@);
}

/// Returns whether a type is scalar-like in the current subset.
fn is_scalar_like(ty: &Type) -> (r: bool)
    ensures
        r == spec_is_scalar_like(ty@),
{
    is_integer_like(ty) || matches!(ty, Type::Pointer(_))
}

/// Returns whether two types are compatible under strict no-conversion rules.
pub fn types_compatible(left: &Type, right: &Type) -> (r: bool)
    ensures
        r == spec_types_compatible(left@, right@),
    decreases left,
{
    if types_equal(left, right) {
        return true;
    }
    match (left, right) {
        (Type::Pointer(le), Type::Array { element: re, .. }) => types_compatible(le, re),
        (Type::Array { element: le, .. }, Type::Pointer(re)) => types_compatible(le, re),
        _ => false,
    }
}

/// Whether `value`, of type `vt`, may be stored where a `t` is expected.
fn assignable(t: &Type, value: &Expression, vt: &Type) -> (r: bool)
    ensures
        r == spec_assignable(t@, *value, vt@),
{
    if types_compatible(t, vt) {
        return true;
    }
    if is_integer_like(t) && is_integer_like(vt) {
        return true;
    }
    match (t, value) {
        (Type::Pointer(_), Expression::IntegerLiteral { value: v, .. }) => *v == 0,
        _ => false,
    }
}

/// Returns result type for pointer addition if operands are compatible.
fn pointer_add_result_type(left: &Type, right: &Type) -> (r: Option<Type>)
    ensures
        match r {
            Some(t) => spec_pointer_add_result(left@, right@) == Some(t@),
            None => spec_pointer_add_result(left@, right@) is None,
        },
{
    if matches!(left, Type::Pointer(_)) && is_integer_like(right) {
        return Some(copy_type(left));
    }
    if is_integer_like(left) && matches!(right, Type::Pointer(_)) {
        return Some(copy_type(right));
    }
    None
}

/// Returns result type for pointer subtraction if operands are compatible.
fn pointer_subtract_result_type(left: &Type, right: &Type) -> (r: Option<Type>)
    ensures
        match r {
            Some(t) => spec_pointer_subtract_result(left@, right@) == Some(t@),
            None => spec_pointer_subtract_result(left@, right@) is None,
        },
{
    if matches!(left, Type::Pointer(_)) && is_integer_like(right) {
        return Some(copy_type(left));
    }
    match (left, right) {
        (Type::Pointer(le), Type::Pointer(re)) => if types_compatible(le, re) {
            Some(builtin(BuiltinType::Int))
        } else {
            None
        },
        _ => None,
    }
}

/// Returns whether an expression is assignable as an lvalue in current subset.
fn is_lvalue(expression: &Expression) -> (r: bool)
    ensures
        r == spec_is_lvalue(*expression),
{
    match expression {
        Expression::Identifier { .. } | Expression::Index { .. } | Expression::MemberAccess { .. } => true,
        Expression::Unary { op: UnaryOp::Dereference, .. } => true,
        _ => false,
    }
}

/// Looks a name up in the local scopes, innermost first.
fn lookup_local_type(context: &FunctionContext, name: &String) -> (r: Option<Type>)
    ensures
        match r {
            Some(t) => spec_lookup_scopes(context@.scopes, name@) == Some(t@),
            None => spec_lookup_scopes(context@.scopes, name@) is None,
        },
{
    let ghost scopes = context@.scopes;
    let mut i = context.scopes.len();
    assert(scopes.take(i as int) =~= scopes);
    while i > 0
        invariant
            i <= context.scopes.len(),
            scopes == context@.scopes,
            spec_lookup_scopes(scopes, name@) == spec_lookup_scopes(scopes.take(i as int), name@),
        decreases i,
    {
        let ghost t = scopes.take(i as int);
        assert(t.last() == context.scopes@[i - 1]@);
        match context.scopes[i - 1].get(name) {
            Some(ty) => {
                return Some(copy_type(ty));
            },
            None => {},
        }
        assert(t.drop_last() =~= scopes.take(i - 1));
        i = i - 1;
    }
    None
}

/// Returns whether a symbol name resolves in any local scope.
fn symbol_exists_in_local_scopes(context: &FunctionContext, name: &String) -> (r: bool)
    ensures
        r == spec_lookup_scopes(context@.scopes, name@) is Some,
{
    lookup_local_type(context, name).is_some()
}

/// Looks up a non-function symbol type in local/global scopes.
fn lookup_variable_type(context: &FunctionContext, info: &SemanticInfo, name: &String) -> (r: Option<Type>)
    ensures
        match r {
            Some(t) => spec_lookup_variable(context@, info@, name@) == Some(t@),
            None => spec_lookup_variable(context@, info@, name@) is None,
        },
{
    match lookup_local_type(context, name) {
        Some(t) => Some(t),
        None => match info.global_symbols.get(name) {
            Some(t) => Some(copy_type(t)),
            None => None,
        },
    }
}

/// The type of a named field.
fn field_type(fields: &Vec<StructField>, member: &String) -> (r: Option<Type>)
    ensures
        match r {
            Some(t) => spec_field_type(fields_view(fields@), member@) == Some(t@),
            None => spec_field_type(fields_view(fields@), member@) is None,
        },
{
    proof {
        lemma_fields_view(fields@);
    }
    let mut i: usize = 0;
    assert(fields_view(fields@).skip(0) =~= fields_view(fields@));
    while i < fields.len()
        invariant
            0 <= i <= fields.len(),
            fields_view(fields@).len() == fields@.len(),
            forall|j: int| 0 <= j < fields@.len() ==> #[trigger] fields_view(fields@)[j] == field_view(fields@[j]),
            spec_field_type(fields_view(fields@), member@) == spec_field_type(fields_view(fields@).skip(i as int), member@),
        decreases fields.len() - i,
    {
        let ghost rest = fields_view(fields@).skip(i as int);
        assert(rest[0] == field_view(fields@[i as int]));
        if fields[i].name == *member {
            return Some(copy_type(&fields[i].ty));
        }
        assert(rest.drop_first() =~= fields_view(fields@).skip(i + 1));
        i += 1;
    }
    assert(fields_view(fields@).skip(i as int).len() == 0);
    None
}

/// Typing of a binary expression from operand types.
fn binary_type(op: BinaryOp, l: Type, r: Type) -> (res: Option<Type>)
    ensures
        match res {
            Some(t) => spec_binary(op, l@, r@) == Some(ev(t@, false)),
            None => spec_binary(op, l@, r@) is None,
        },
{
    let same_integer = is_integer_like(&l) && is_integer_like(&r) && types_equal(&l, &r);
    match op {
        BinaryOp::Multiply | BinaryOp::Modulo | BinaryOp::Divide => if same_integer { Some(l) } else { None },
        BinaryOp::ShiftLeft | BinaryOp::ShiftRight | BinaryOp::BitwiseAnd | BinaryOp::BitwiseOr | BinaryOp::BitwiseXor =>
            if same_integer { Some(l) } else { None },
        BinaryOp::Add => if same_integer { Some(l) } else { pointer_add_result_type(&l, &r) },
        BinaryOp::Subtract => if same_integer { Some(l) } else { pointer_subtract_result_type(&l, &r) },
        BinaryOp::Less | BinaryOp::LessEqual | BinaryOp::Greater | BinaryOp::GreaterEqual => if same_integer {
            Some(builtin(BuiltinType::Int))
        } else {
            None
        },
        BinaryOp::Equal | BinaryOp::NotEqual => if types_compatible(&l, &r) {
            Some(builtin(BuiltinType::Int))
        } else {
            None
        },
        BinaryOp::LogicalAnd | BinaryOp::LogicalOr => if is_scalar_like(&l) && is_scalar_like(&r) {
            Some(builtin(BuiltinType::Int))
        } else {
            None
        },
    }
}

/// Typing of a unary expression from the operand typing.
fn unary_type(op: UnaryOp, inner: ExprInfo) -> (res: Option<ExprInfo>)
    ensures
        match res {
            Some(x) => spec_unary(op, inner@) == Some(x@),
            None => spec_unary(op, inner@) is None,
        },
{
    match op {
        UnaryOp::AddressOf => if inner.is_lvalue {
            Some(ExprInfo { ty: Type::Pointer(Box::new(inner.ty)), is_lvalue: false })
        } else {
            None
        },
        UnaryOp::Dereference => match inner.ty {
            Type::Pointer(p) => Some(ExprInfo { ty: *p, is_lvalue: true }),
            _ => None,
        },
        UnaryOp::Plus | UnaryOp::Minus => if is_integer_like(&inner.ty) {
            Some(ExprInfo { ty: inner.ty, is_lvalue: false })
        } else {
            None
        },
        UnaryOp::LogicalNot => if is_scalar_like(&inner.ty) {
            Some(ExprInfo { ty: builtin(BuiltinType::Int), is_lvalue: false })
        } else {
            None
        },
    }
}

/// Analyzes an expression recursively and returns semantic metadata.
#[verifier::loop_isolation(false)]
fn analyze_expression(context: &FunctionContext, expression: &Expression, info: &SemanticInfo) -> (r: Result<ExprInfo, CompilerError>)
    ensures
        match r {
            Ok(x) => spec_expr(context@, info@, *expression) == Some(x@),
            Err(err) => spec_expr(context@, info@, *expression) is None
                && reports(err, expr_diag(context@, info@, *expression)),
        },
    decreases expression,
{
    match expression {
        Expression::Identifier { name, location } => {
            if let Some(ty) = lookup_variable_type(context, info, name) {
                return Ok(ExprInfo { ty: normalize_type(info, &ty), is_lvalue: true });
            }
            if let Some(signature) = info.function_signatures.get(name) {
                let ret = copy_type(&signature.return_type);
                let ty = Type::Function { return_type: Box::new(ret), params: Vec::new() };
                assert(params_view(Seq::<Parameter>::empty()) =~= Seq::<ParamView>::empty());
                return Ok(ExprInfo { ty, is_lvalue: false });
            }
            if info.enum_constants.contains(name) {
                return Ok(ExprInfo { ty: builtin(BuiltinType::Int), is_lvalue: false });
            }
            Err(CompilerError::semantic_with_location(concat3("undeclared identifier '", name.as_str(), "'"), *location))
        },
        Expression::IntegerLiteral { .. } => Ok(ExprInfo { ty: builtin(BuiltinType::Int), is_lvalue: false }),
        Expression::Unary { op, expr, location } => {
            let inner = analyze_expression(context, expr, info)?;
            match unary_type(*op, inner) {
                Some(x) => Ok(x),
                None => Err(sem_err(match op {
                    UnaryOp::AddressOf => "address-of requires an lvalue operand",
                    UnaryOp::Dereference => "dereference requires a pointer operand",
                    UnaryOp::Plus | UnaryOp::Minus => "unary arithmetic requires integer-like operand",
                    UnaryOp::LogicalNot => "logical not requires a scalar-like operand",
                }, *location)),
            }
        },
        Expression::Binary { op, lhs, rhs, location } => {
            let left = analyze_expression(context, lhs, info)?;
            let right = analyze_expression(context, rhs, info)?;
            match binary_type(*op, left.ty, right.ty) {
                Some(t) => Ok(ExprInfo { ty: t, is_lvalue: false }),
                None => Err(sem_err(match op {
                    BinaryOp::Multiply | BinaryOp::Modulo | BinaryOp::Divide => "arithmetic operators require matching integer-like operands",
                    BinaryOp::ShiftLeft | BinaryOp::ShiftRight | BinaryOp::BitwiseAnd | BinaryOp::BitwiseOr | BinaryOp::BitwiseXor =>
                        "bitwise operators require matching integer-like operands",
                    BinaryOp::Add => "addition requires matching integer-like operands or pointer with integer-like operand",
                    BinaryOp::Subtract => "subtraction requires matching integer-like operands, pointer-integer, or compatible pointer-pointer operands",
                    BinaryOp::Equal | BinaryOp::NotEqual => "equality operators require compatible operand types",
                    BinaryOp::LogicalAnd | BinaryOp::LogicalOr => "logical operators require scalar-like operands",
                    _ => "relational operators require matching integer-like operands",
                }, *location)),
            }
        },
        Expression::Assignment { target, value, location } => {
            let left = analyze_expression(context, target, info)?;
            let right = analyze_expression(context, value, info)?;
            if !left.is_lvalue || !is_lvalue(target) {
                return Err(sem_err("assignment target is not an lvalue", *location));
            }
            if !assignable(&left.ty, value, &right.ty) {
                return Err(sem_err("assignment types are incompatible", *location));
            }
            Ok(ExprInfo { ty: left.ty, is_lvalue: false })
        },
        Expression::Call { callee, args, location } => {
            let function_name = match &**callee {
                Expression::Identifier { name, .. } => name,
                _ => {
                    return Err(sem_err("call target must be a function identifier", *location));
                },
            };
            if symbol_exists_in_local_scopes(context, function_name) && !info.function_signatures.contains(function_name) {
                return Err(CompilerError::semantic_with_location(concat3("'", function_name.as_str(), "' is not callable"), *location));
            }
            let signature = match info.function_signatures.get(function_name) {
                Some(sig) => sig,
                None => {
                    return Err(CompilerError::semantic_with_location(concat3("call to undeclared function '", function_name.as_str(), "'"), *location));
                },
            };
            if signature.parameter_types.len() != args.len() {
                let mut message = concat3("function '", function_name.as_str(), "' expects ");
                let expected = u64_to_decimal(signature.parameter_types.len() as u64);
                push_str(&mut message, expected.as_str());
                push_str(&mut message, " arguments but got ");
                let got = u64_to_decimal(args.len() as u64);
                push_str(&mut message, got.as_str());
                return Err(CompilerError::semantic_with_location(message, *location));
            }
            let ghost sig = signature@;
            assert(sig.parameter_types.len() == args@.len());
            let mut i: usize = 0;
            while i < args.len()
                invariant
                    0 <= i <= args.len(),
                    args.len() == signature.parameter_types.len(),
                    sig == signature@,
                    spec_args_ok(context@, info@, args@.take(i as int), sig.parameter_types),
                decreases args.len() - i,
            {
                proof {
                    assert(decreases_to!(*expression => *args));
                    assert(decreases_to!(*args => args@));
                    assert(decreases_to!(args@ => args@[i as int]));
                }
                let ghost t = args@.take(i + 1);
                assert(t.drop_last() =~= args@.take(i as int));
                assert(t.last() == args@[i as int]);
                let argument = analyze_expression(context, &args[i], info);
                match argument {
                    Ok(a) => {
                        assert(sig.parameter_types[i as int] == signature.parameter_types@[i as int]@);
                        if !assignable(&signature.parameter_types[i], &args[i], &a.ty) {
                            proof { lemma_args_prefix_fail(context@, info@, args@, sig.parameter_types, i as int + 1, function_name@, *location); }
                            return Err(CompilerError::semantic_with_location(concat3("argument type mismatch in call to '", function_name.as_str(), "'"), *location));
                        }
                    },
                    Err(e) => {
                        proof { lemma_args_prefix_fail(context@, info@, args@, sig.parameter_types, i as int + 1, function_name@, *location); }
                        return Err(e);
                    },
                }
                i += 1;
            }
            assert(args@.take(args.len() as int) =~= args@);
            Ok(ExprInfo { ty: copy_type(&signature.return_type), is_lvalue: false })
        },
        Expression::Index { base, index, location } => {
            let base_info = analyze_expression(context, base, info)?;
            let index_info = analyze_expression(context, index, info)?;
            if !is_integer_like(&index_info.ty) {
                return Err(sem_err("index expression must be integer-like", *location));
            }
            match base_info.ty {
                Type::Array { element, .. } => Ok(ExprInfo { ty: *element, is_lvalue: true }),
                Type::Pointer(element) => Ok(ExprInfo { ty: *element, is_lvalue: true }),
                _ => Err(sem_err("index base must be array or pointer", *location)),
            }
        },
        Expression::ArrayInitializer { location, .. } => Err(sem_err("array initializer is only allowed in an array declaration", *location)),
        Expression::MemberAccess { base, member, through_pointer, location } => {
            let analyzed = analyze_expression(context, base, info)?;
            let base_info = ExprInfo { ty: normalize_type(info, &analyzed.ty), is_lvalue: analyzed.is_lvalue };
            let fields = if *through_pointer {
                match &base_info.ty {
                    Type::Pointer(inner) => match &**inner {
                        Type::Struct { fields, .. } => {
                            assert(spec_member_base_fields(base_info.ty@, true) == Some(fields_view(fields@)));
                            fields
                        },
                        _ => {
                            assert(!((**inner)@ is Struct));
                            return Err(sem_err("member access through '->' requires a pointer to a struct", *location));
                        },
                    },
                    _ => {
                        assert(!(base_info.ty@ is Pointer));
                        return Err(sem_err("member access through '->' requires a pointer to a struct", *location));
                    },
                }
            } else {
                match &base_info.ty {
                    Type::Struct { fields, .. } => {
                        assert(spec_member_base_fields(base_info.ty@, false) == Some(fields_view(fields@)));
                        fields
                    },
                    _ => {
                        assert(!(base_info.ty@ is Struct));
                        return Err(sem_err("member access requires a struct operand", *location));
                    },
                }
            };
            match field_type(fields, member) {
                Some(t) => Ok(ExprInfo { ty: normalize_type(info, &t), is_lvalue: true }),
                None => Err(CompilerError::semantic_with_location(concat3("struct has no member named '", member.as_str(), "'"), *location)),
            }
        },
        Expression::IncDec { target, location, .. } => {
            let t = analyze_expression(context, target, info)?;
            if !t.is_lvalue || !is_lvalue(target) {
                return Err(sem_err("increment or decrement target is not an lvalue", *location));
            }
            if !is_scalar_like(&t.ty) {
                return Err(sem_err("increment or decrement requires a scalar-like operand", *location));
            }
            Ok(ExprInfo { ty: t.ty, is_lvalue: false })
        },
    }
}


// ---------------------------------------------------------------------------
// Declarations, statements and blocks on models
// ---------------------------------------------------------------------------

/// Declares a name in the innermost scope; rejected when that scope already holds the name.
pub open spec fn spec_declare(ctx: CtxView, name: Seq<char>, ty: TypeView) -> Option<CtxView> {
    if ctx.scopes.len() == 0 {
        None
    } else if find_last(ctx.scopes.last(), name) >= 0 {
        None
    } else {
        Some(CtxView {
            scopes: ctx.scopes.update(ctx.scopes.len() - 1, ctx.scopes.last().push((name, ty))),
            return_type: ctx.return_type,
        })
    }
}

pub open spec fn spec_push_scope(ctx: CtxView) -> CtxView {
    CtxView { scopes: ctx.scopes.push(Seq::empty()), return_type: ctx.return_type }
}

pub open spec fn spec_pop_scope(ctx: CtxView) -> Option<CtxView> {
    if ctx.scopes.len() == 0 {
        None
    } else {
        Some(CtxView { scopes: ctx.scopes.drop_last(), return_type: ctx.return_type })
    }
}

/// An element of a brace initializer fits an array element of type `el`.
pub open spec fn spec_element_ok(ctx: CtxView, info: InfoView, el: TypeView, e: Expression) -> bool {
    match spec_expr(ctx, info, e) {
        Some(r) => spec_types_compatible(el, r.ty) || (spec_is_integer_like(el) && spec_is_integer_like(r.ty)),
        None => false,
    }
}

/// An initializer fits a declaration of type `declared`: a brace list needs an array declaration
/// whose element type accepts every element; any other expression must be assignable to it.
pub open spec fn spec_initializer_ok(ctx: CtxView, info: InfoView, declared: TypeView, init: Expression) -> bool {
    match init {
        Expression::ArrayInitializer { elements, .. } => match declared {
            TypeView::Array(el, _) => forall|i: int| 0 <= i < elements@.len() ==> #[trigger] spec_element_ok(ctx, info, *el, elements@[i]),
            _ => false,
        },
        _ => match spec_expr(ctx, info, init) {
            Some(r) => spec_assignable(declared, init, r.ty),
            None => false,
        },
    }
}

/// A local declarator: declare, then check the initializer in the extended scope.
pub open spec fn spec_declarator(ctx: CtxView, info: InfoView, d: Declarator) -> Option<CtxView> {
    match spec_declare(ctx, d.name@, d.ty@) {
        Some(c) => match d.initializer {
            Some(init) => if spec_initializer_ok(c, info, spec_normalize(info, d.ty@), init) {
                Some(c)
            } else {
                None
            },
            None => Some(c),
        },
        None => None,
    }
}

pub open spec fn spec_declarators(ctx: CtxView, info: InfoView, ds: Seq<Declarator>) -> Option<CtxView>
    decreases ds.len(),
{
    if ds.len() == 0 {
        Some(ctx)
    } else {
        match spec_declarators(ctx, info, ds.drop_last()) {
            Some(c) => spec_declarator(c, info, ds.last()),
            None => None,
        }
    }
}

pub open spec fn spec_opt_expr_ok(ctx: CtxView, info: InfoView, e: Option<Expression>) -> bool {
    match e {
        Some(x) => spec_expr(ctx, info, x) is Some,
        None => true,
    }
}

/// Checking of a statement; the result is the context afterwards.
pub open spec fn spec_stmt(ctx: CtxView, info: InfoView, s: Statement) -> Option<CtxView>
    decreases s,
{
    match s {
        Statement::Block(b) => match spec_items(spec_push_scope(ctx), info, b.items@) {
            Some(c) => spec_pop_scope(c),
            None => None,
        },
        Statement::If { condition, then_branch, else_branch } => if spec_expr(ctx, info, condition) is None {
            None
        } else {
            match spec_stmt(ctx, info, *then_branch) {
                Some(c) => match else_branch {
                    Some(e) => spec_stmt(c, info, *e),
                    None => Some(c),
                },
                None => None,
            }
        },
        Statement::Return(Some(e)) => match spec_expr(ctx, info, e) {
            Some(r) => if ctx.return_type == void_view() || !spec_assignable(ctx.return_type, e, r.ty) {
                None
            } else {
                Some(ctx)
            },
            None => None,
        },
        Statement::Return(None) => if ctx.return_type != void_view() {
            None
        } else {
            Some(ctx)
        },
        Statement::Expression(e) => if spec_opt_expr_ok(ctx, info, e) {
            Some(ctx)
        } else {
            None
        },
        Statement::While { condition, body } => if spec_expr(ctx, info, condition) is None {
            None
        } else {
            spec_stmt(ctx, info, *body)
        },
        Statement::For { init, condition, update, body } => if spec_opt_expr_ok(ctx, info, init)
            && spec_opt_expr_ok(ctx, info, condition) && spec_opt_expr_ok(ctx, info, update) {
            spec_stmt(ctx, info, *body)
        } else {
            None
        },
        Statement::InlineAsm(_) => Some(ctx),
    }
}

/// Checking of the items of a block, in order.
pub open spec fn spec_items(ctx: CtxView, info: InfoView, items: Seq<BlockItem>) -> Option<CtxView>
    decreases items,
{
    if items.len() == 0 {
        Some(ctx)
    } else {
        match spec_items(ctx, info, items.drop_last()) {
            Some(c) => spec_item(c, info, items.last()),
            None => None,
        }
    }
}

pub open spec fn spec_item(ctx: CtxView, info: InfoView, item: BlockItem) -> Option<CtxView>
    decreases item,
{
    match item {
        BlockItem::Declaration(d) => spec_declarators(ctx, info, d.declarators@),
        BlockItem::Statement(s) => spec_stmt(ctx, info, s),
    }
}

/// Checking of a block's items followed by leaving its scope.
pub open spec fn spec_block(ctx: CtxView, info: InfoView, items: Seq<BlockItem>) -> Option<CtxView> {
    match spec_items(ctx, info, items) {
        Some(c) => spec_pop_scope(c),
        None => None,
    }
}

/// The error of the first rejected element of a brace initializer (meaningful when some
/// element is rejected).
pub open spec fn elements_diag(ctx: CtxView, info: InfoView, el: TypeView, es: Seq<Expression>,
    location: Option<SourceLocation>) -> SemDiag
    decreases es.len(),
{
    if es.len() == 0 {
        diag(Seq::empty(), location)
    } else if !(forall|j: int| 0 <= j < es.len() - 1 ==> #[trigger] spec_element_ok(ctx, info, el, es[j])) {
        elements_diag(ctx, info, el, es.drop_last(), location)
    } else {
        match spec_expr(ctx, info, es.last()) {
            Some(_) => diag("array initializer element is incompatible with the element type"@, location),
            None => expr_diag(ctx, info, es.last()),
        }
    }
}

/// The error reported for an initializer that `spec_initializer_ok` rejects.
pub open spec fn initializer_diag(ctx: CtxView, info: InfoView, declared: TypeView, init: Expression) -> SemDiag {
    match init {
        Expression::ArrayInitializer { elements, location } => match declared {
            TypeView::Array(el, _) => elements_diag(ctx, info, *el, elements@, location),
            _ => diag("array initializer requires an array declaration"@, location),
        },
        _ => match spec_expr(ctx, info, init) {
            Some(_) => diag("initializer type is incompatible with declaration type"@, expr_location(init)),
            None => expr_diag(ctx, info, init),
        },
    }
}

/// The error reported when a declaration is rejected by `spec_declare`.
pub open spec fn declare_diag(ctx: CtxView) -> SemDiag {
    if ctx.scopes.len() == 0 {
        diag("no scope is open for the declaration"@, None)
    } else {
        diag("multiple declarations of the same variable found."@, None)
    }
}

pub open spec fn declarator_diag(ctx: CtxView, info: InfoView, d: Declarator) -> SemDiag {
    match spec_declare(ctx, d.name@, d.ty@) {
        Some(c) => initializer_diag(c, info, spec_normalize(info, d.ty@), d.initializer->0),
        None => declare_diag(ctx),
    }
}

pub open spec fn declarators_diag(ctx: CtxView, info: InfoView, ds: Seq<Declarator>) -> SemDiag
    decreases ds.len(),
{
    if ds.len() == 0 {
        diag(Seq::empty(), None)
    } else {
        match spec_declarators(ctx, info, ds.drop_last()) {
            Some(c) => declarator_diag(c, info, ds.last()),
            None => declarators_diag(ctx, info, ds.drop_last()),
        }
    }
}

pub open spec fn opt_expr_diag(ctx: CtxView, info: InfoView, e: Option<Expression>) -> SemDiag {
    match e {
        Some(x) => expr_diag(ctx, info, x),
        None => diag(Seq::empty(), None),
    }
}

/// The error reported for a statement that `spec_stmt` rejects: the first failing part's.
pub open spec fn stmt_diag(ctx: CtxView, info: InfoView, s: Statement) -> SemDiag
    decreases s,
{
    match s {
        Statement::Block(b) => match spec_items(spec_push_scope(ctx), info, b.items@) {
            Some(_) => diag("scope stack underflow during analysis"@, None),
            None => items_diag(spec_push_scope(ctx), info, b.items@),
        },
        Statement::If { condition, then_branch, else_branch } => if spec_expr(ctx, info, condition) is None {
            expr_diag(ctx, info, condition)
        } else {
            match spec_stmt(ctx, info, *then_branch) {
                Some(c) => match else_branch {
                    Some(e) => stmt_diag(c, info, *e),
                    None => diag(Seq::empty(), None),
                },
                None => stmt_diag(ctx, info, *then_branch),
            }
        },
        Statement::Return(Some(e)) => match spec_expr(ctx, info, e) {
            Some(_) => if ctx.return_type == void_view() {
                diag("cant return a value on a void function."@, expr_location(e))
            } else {
                diag("return type is incompatible with function signature"@, expr_location(e))
            },
            None => expr_diag(ctx, info, e),
        },
        Statement::Return(None) => diag("empty return on a non-void function."@, None),
        Statement::Expression(e) => opt_expr_diag(ctx, info, e),
        Statement::While { condition, body } => if spec_expr(ctx, info, condition) is None {
            expr_diag(ctx, info, condition)
        } else {
            stmt_diag(ctx, info, *body)
        },
        Statement::For { init, condition, update, body } => if !spec_opt_expr_ok(ctx, info, init) {
            opt_expr_diag(ctx, info, init)
        } else if !spec_opt_expr_ok(ctx, info, condition) {
            opt_expr_diag(ctx, info, condition)
        } else if !spec_opt_expr_ok(ctx, info, update) {
            opt_expr_diag(ctx, info, update)
        } else {
            stmt_diag(ctx, info, *body)
        },
        Statement::InlineAsm(_) => diag(Seq::empty(), None),
    }
}

/// The error of the first rejected item of a block.
pub open spec fn items_diag(ctx: CtxView, info: InfoView, items: Seq<BlockItem>) -> SemDiag
    decreases items,
{
    if items.len() == 0 {
        diag(Seq::empty(), None)
    } else {
        match spec_items(ctx, info, items.drop_last()) {
            Some(c) => item_diag(c, info, items.last()),
            None => items_diag(ctx, info, items.drop_last()),
        }
    }
}

pub open spec fn item_diag(ctx: CtxView, info: InfoView, item: BlockItem) -> SemDiag
    decreases item,
{
    match item {
        BlockItem::Declaration(d) => declarators_diag(ctx, info, d.declarators@),
        BlockItem::Statement(s) => stmt_diag(ctx, info, s),
    }
}

/// The error reported for a block that `spec_block` rejects.
pub open spec fn block_diag(ctx: CtxView, info: InfoView, items: Seq<BlockItem>) -> SemDiag {
    match spec_items(ctx, info, items) {
        Some(_) => diag("scope stack underflow during analysis"@, None),
        None => items_diag(ctx, info, items),
    }
}

/// Once an element is rejected, it is the first rejected one that gives the error.
proof fn lemma_elements_first(ctx: CtxView, info: InfoView, el: TypeView, es: Seq<Expression>, i: int,
    location: Option<SourceLocation>)
    requires
        0 <= i < es.len(),
        forall|j: int| 0 <= j < i ==> #[trigger] spec_element_ok(ctx, info, el, es[j]),
        !spec_element_ok(ctx, info, el, es[i]),
    ensures
        elements_diag(ctx, info, el, es, location) == match spec_expr(ctx, info, es[i]) {
            Some(_) => diag("array initializer element is incompatible with the element type"@, location),
            None => expr_diag(ctx, info, es[i]),
        },
    decreases es.len(),
{
    if i < es.len() - 1 {
        let p = es.drop_last();
        assert(p[i] == es[i]);
        assert(!spec_element_ok(ctx, info, el, es[i]));
        assert forall|j: int| 0 <= j < i implies #[trigger] spec_element_ok(ctx, info, el, p[j]) by {
            assert(p[j] == es[j]);
        }
        lemma_elements_first(ctx, info, el, p, i, location);
    }
}

pub proof fn lemma_items_prefix_fail(ctx: CtxView, info: InfoView, items: Seq<BlockItem>, k: int)
    requires
        0 <= k <= items.len(),
        spec_items(ctx, info, items.take(k)) is None,
    ensures
        spec_items(ctx, info, items) is None,
        items_diag(ctx, info, items) == items_diag(ctx, info, items.take(k)),
    decreases items.len() - k,
{
    if k < items.len() {
        assert(items.take(k + 1).drop_last() =~= items.take(k));
        lemma_items_prefix_fail(ctx, info, items, k + 1);
    } else {
        assert(items.take(k) =~= items);
    }
}

pub proof fn lemma_declarators_prefix_fail(ctx: CtxView, info: InfoView, ds: Seq<Declarator>, k: int)
    requires
        0 <= k <= ds.len(),
        spec_declarators(ctx, info, ds.take(k)) is None,
    ensures
        spec_declarators(ctx, info, ds) is None,
        declarators_diag(ctx, info, ds) == declarators_diag(ctx, info, ds.take(k)),
    decreases ds.len() - k,
{
    if k < ds.len() {
        assert(ds.take(k + 1).drop_last() =~= ds.take(k));
        lemma_declarators_prefix_fail(ctx, info, ds, k + 1);
    } else {
        assert(ds.take(k) =~= ds);
    }
}

// ---------------------------------------------------------------------------
// Executable scope handling and statement analysis
// ---------------------------------------------------------------------------

/// Declares a symbol in the current scope and validates duplicates.
fn declare_in_current_scope(context: &mut FunctionContext, name: &String, ty: &Type) -> (r: Result<(), CompilerError>)
    ensures
        match r {
            Ok(_) => spec_declare(old(context)@, name@, ty@) == Some(final(context)@),
            Err(e) => spec_declare(old(context)@, name@, ty@) is None && reports(e, declare_diag(old(context)@)),
        },
{
    let ghost before = context@;
    match context.scopes.pop() {
        None => Err(sem_err("no scope is open for the declaration", None)),
        Some(mut current_scope) => {
            assert(before.scopes.last() == current_scope@);
            if current_scope.contains(name) {
                context.scopes.push(current_scope);
                return Err(sem_err("multiple declarations of the same variable found.", None));
            }
            current_scope.insert(name.clone(), copy_type(ty));
            context.scopes.push(current_scope);
            assert(context@.scopes =~= before.scopes.update(before.scopes.len() - 1, before.scopes.last().push((name@, ty@))));
            Ok(())
        },
    }
}

/// Pushes a new local scope.
fn push_scope(context: &mut FunctionContext)
    ensures
        final(context)@ == spec_push_scope(old(context)@),
{
    context.scopes.push(SymbolMap::new());
    assert(context@.scopes =~= old(context)@.scopes.push(Seq::empty()));
}

/// Pops the current local scope.
fn pop_scope(context: &mut FunctionContext) -> (r: Result<(), CompilerError>)
    ensures
        match r {
            Ok(_) => spec_pop_scope(old(context)@) == Some(final(context)@),
            Err(e) => spec_pop_scope(old(context)@) is None
                && reports(e, diag("scope stack underflow during analysis"@, None)),
        },
{
    match context.scopes.pop() {
        Some(_) => {
            assert(context@.scopes =~= old(context)@.scopes.drop_last());
            Ok(())
        },
        None => Err(sem_err("scope stack underflow during analysis", None)),
    }
}

/// Checks a declarator's initializer against the declared type.
#[verifier::loop_isolation(false)]
fn check_initializer(context: &FunctionContext, declared: &Type, init: &Expression, info: &SemanticInfo) -> (r: Result<(), CompilerError>)
    ensures
        match r {
            Ok(_) => spec_initializer_ok(context@, info@, declared@, *init),
            Err(e) => !spec_initializer_ok(context@, info@, declared@, *init)
                && reports(e, initializer_diag(context@, info@, declared@, *init)),
        },
{
    match init {
        Expression::ArrayInitializer { elements, location } => {
            let el = match declared {
                Type::Array { element, .. } => element,
                _ => {
                    return Err(sem_err("array initializer requires an array declaration", *location));
                },
            };
            let mut i: usize = 0;
            while i < elements.len()
                invariant
                    0 <= i <= elements.len(),
                    forall|j: int| 0 <= j < i ==> #[trigger] spec_element_ok(context@, info@, (**el)@, elements@[j]),
                decreases elements.len() - i,
            {
                let element = match analyze_expression(context, &elements[i], info) {
                    Ok(x) => x,
                    Err(e) => {
                        assert(!spec_element_ok(context@, info@, (**el)@, elements@[i as int]));
                        proof { lemma_elements_first(context@, info@, (**el)@, elements@, i as int, *location); }
                        return Err(e);
                    },
                };
                if !types_compatible(el, &element.ty) && !(is_integer_like(el) && is_integer_like(&element.ty)) {
                    assert(!spec_element_ok(context@, info@, (**el)@, elements@[i as int]));
                    proof { lemma_elements_first(context@, info@, (**el)@, elements@, i as int, *location); }
                    return Err(sem_err("array initializer element is incompatible with the element type", *location));
                }
                i += 1;
            }
            Ok(())
        },
        _ => {
            let init_info = analyze_expression(context, init, info)?;
            if !assignable(declared, init, &init_info.ty) {
                return Err(sem_err("initializer type is incompatible with declaration type", init.location()));
            }
            Ok(())
        },
    }
}

/// Declares the declarators of a local declaration in order, checking each initializer in
/// the scope that already holds its name.
#[verifier::loop_isolation(false)]
fn analyze_declaration(context: &mut FunctionContext, ds: &Vec<Declarator>, info: &SemanticInfo) -> (r: Result<(), CompilerError>)
    ensures
        match r {
            Ok(_) => spec_declarators(old(context)@, info@, ds@) == Some(final(context)@),
            Err(e) => spec_declarators(old(context)@, info@, ds@) is None
                && reports(e, declarators_diag(old(context)@, info@, ds@)),
        },
{
    let ghost c_before = context@;
    let mut j: usize = 0;
    while j < ds.len()
        invariant
            0 <= j <= ds.len(),
            spec_declarators(c_before, info@, ds@.take(j as int)) == Some(context@),
        decreases ds.len() - j,
    {
        let ghost u = ds@.take(j + 1);
        assert(u.drop_last() =~= ds@.take(j as int));
        assert(u.last() == ds@[j as int]);
        let declarator = &ds[j];
        let r1 = declare_in_current_scope(context, &declarator.name, &declarator.ty);
        if r1.is_err() {
            proof { lemma_declarators_prefix_fail(c_before, info@, ds@, j + 1); }
            return r1;
        }
        if let Some(initializer) = &declarator.initializer {
            let r2 = check_initializer(context, &normalize_type(info, &declarator.ty), initializer, info);
            if r2.is_err() {
                proof { lemma_declarators_prefix_fail(c_before, info@, ds@, j + 1); }
                return r2;
            }
        }
        j += 1;
    }
    assert(ds@.take(ds.len() as int) =~= ds@);
    Ok(())
}

/// Analyzes a block and all contained items, then leaves its scope.
#[verifier::loop_isolation(false)]
fn analyze_block(context: &mut FunctionContext, block: &Block, info: &SemanticInfo) -> (r: Result<(), CompilerError>)
    ensures
        match r {
            Ok(_) => spec_block(old(context)@, info@, block.items@) == Some(final(context)@),
            Err(e) => spec_block(old(context)@, info@, block.items@) is None
                && reports(e, block_diag(old(context)@, info@, block.items@)),
        },
    decreases block, 1nat,
{
    let ghost c0 = context@;
    let items = &block.items;
    let mut i: usize = 0;
    while i < items.len()
        invariant
            0 <= i <= items.len(),
            spec_items(c0, info@, items@.take(i as int)) == Some(context@),
        decreases items.len() - i,
    {
        proof {
            assert(decreases_to!(*block => *items));
            assert(decreases_to!(*items => items@));
            assert(decreases_to!(items@ => items@[i as int]));
        }
        let ghost c_before = context@;
        let ghost t = items@.take(i + 1);
        assert(t.drop_last() =~= items@.take(i as int));
        assert(t.last() == items@[i as int]);
        match &items[i] {
            BlockItem::Declaration(declaration) => {
                let r = analyze_declaration(context, &declaration.declarators, info);
                if r.is_err() {
                    proof {
                        assert(spec_item(c_before, info@, items@[i as int]) is None);
                        lemma_items_prefix_fail(c0, info@, items@, i + 1);
                        assert(item_diag(c_before, info@, items@[i as int]) == declarators_diag(c_before, info@, declaration.declarators@));
                        assert(items_diag(c0, info@, t) == item_diag(c_before, info@, items@[i as int]));
                        assert(block_diag(c0, info@, items@) == items_diag(c0, info@, items@));
                    }
                    return r;
                }
            },
            BlockItem::Statement(statement) => {
                let r = analyze_statement(context, statement, info);
                if r.is_err() {
                    proof {
                        assert(spec_item(c_before, info@, items@[i as int]) is None);
                        lemma_items_prefix_fail(c0, info@, items@, i + 1);
                    }
                    return r;
                }
            },
        }
        i += 1;
    }
    assert(items@.take(items.len() as int) =~= items@);
    pop_scope(context)
}

fn analyze_opt_expression(context: &FunctionContext, e: &Option<Expression>, info: &SemanticInfo) -> (r: Result<(), CompilerError>)
    ensures
        match r {
            Ok(_) => spec_opt_expr_ok(context@, info@, *e),
            Err(err) => !spec_opt_expr_ok(context@, info@, *e) && reports(err, opt_expr_diag(context@, info@, *e)),
        },
{
    match e {
        Some(x) => {
            analyze_expression(context, x, info)?;
            Ok(())
        },
        None => Ok(()),
    }
}

/// Analyzes a statement recursively with scope handling.
fn analyze_statement(context: &mut FunctionContext, statement: &Statement, info: &SemanticInfo) -> (r: Result<(), CompilerError>)
    ensures
        match r {
            Ok(_) => spec_stmt(old(context)@, info@, *statement) == Some(final(context)@),
            Err(e) => spec_stmt(old(context)@, info@, *statement) is None
                && reports(e, stmt_diag(old(context)@, info@, *statement)),
        },
    decreases statement, 0nat,
{
    match statement {
        Statement::Block(block) => {
            push_scope(context);
            analyze_block(context, block, info)
        },
        Statement::If { condition, then_branch, else_branch } => {
            analyze_expression(context, condition, info)?;
            analyze_statement(context, then_branch, info)?;
            if let Some(else_statement) = else_branch {
                analyze_statement(context, else_statement, info)?;
            }
            Ok(())
        },
        Statement::Return(expression) => {
            if let Some(expr) = expression {
                let return_info = analyze_expression(context, expr, info)?;
                if matches!(context.return_type, Type::Builtin(BuiltinType::Void)) {
                    return Err(sem_err("cant return a value on a void function.", expr.location()));
                }
                if !assignable(&context.return_type, expr, &return_info.ty) {
                    return Err(sem_err("return type is incompatible with function signature", expr.location()));
                }
            } else if !matches!(context.return_type, Type::Builtin(BuiltinType::Void)) {
                return Err(sem_err("empty return on a non-void function.", None));
            }
            Ok(())
        },
        Statement::Expression(expression) => analyze_opt_expression(context, expression, info),
        Statement::While { condition, body } => {
            analyze_expression(context, condition, info)?;
            analyze_statement(context, body, info)
        },
        Statement::For { init, condition, update, body } => {
            analyze_opt_expression(context, init, info)?;
            analyze_opt_expression(context, condition, info)?;
            analyze_opt_expression(context, update, info)?;
            analyze_statement(context, body, info)
        },
        Statement::InlineAsm(_) => Ok(()),
    }
}


// ---------------------------------------------------------------------------
// Functions and top-level symbols on models
// ---------------------------------------------------------------------------

/// A parameter: named ones are declared in the function scope; an unnamed one is only
/// accepted as the single `void` marker of an empty parameter list.
pub open spec fn spec_parameter(ctx: CtxView, p: Parameter, count: nat) -> Option<CtxView> {
    match p.name {
        Some(name) => spec_declare(ctx, name@, p.ty@),
        None => if p.ty@ == void_view() && count == 1 {
            Some(ctx)
        } else {
            None
        },
    }
}

pub open spec fn spec_parameters(ctx: CtxView, ps: Seq<Parameter>, count: nat) -> Option<CtxView>
    decreases ps.len(),
{
    if ps.len() == 0 {
        Some(ctx)
    } else {
        match spec_parameters(ctx, ps.drop_last(), count) {
            Some(c) => spec_parameter(c, ps.last(), count),
            None => None,
        }
    }
}

/// The context in which a function body starts: one empty scope.
pub open spec fn spec_function_context(f: FunctionDeclaration) -> CtxView {
    CtxView { scopes: seq![Seq::empty()], return_type: f.return_type@ }
}

/// A function definition is well formed: its parameters, then its body.
pub open spec fn spec_function_ok(info: InfoView, f: FunctionDeclaration) -> bool {
    match spec_parameters(spec_function_context(f), f.params@, f.params@.len()) {
        Some(c) => spec_block(c, info, f.body.items@) is Some,
        None => false,
    }
}

/// Every function definition among the items is well formed.
pub open spec fn spec_functions_ok(info: InfoView, items: Seq<ExternalDeclaration>) -> bool {
    forall|i: int| 0 <= i < items.len() ==> match #[trigger] items[i] {
        ExternalDeclaration::Function(f) => spec_function_ok(info, f),
        _ => true,
    }
}

/// The context used to check global initializers: no scopes, `void` return.
pub open spec fn spec_global_context() -> CtxView {
    CtxView { scopes: Seq::empty(), return_type: void_view() }
}

/// Registers a global declarator: its name must be new among globals and functions.
pub open spec fn spec_register_global(info: InfoView, d: Declarator) -> Option<InfoView> {
    if find_last(info.globals, d.name@) >= 0 || find_last(info.functions, d.name@) >= 0 {
        None
    } else if d.initializer is Some && !spec_initializer_ok(spec_global_context(), info, spec_normalize(info, d.ty@), d.initializer->0) {
        None
    } else if d.initializer is Some && d.initializer->0 is ArrayInitializer && !spec_constant_initializer(d.initializer->0) {
        None
    } else {
        Some(InfoView { globals: info.globals.push((d.name@, d.ty@)), ..info })
    }
}

/// An initializer is known before the program runs: a constant expression, or a brace
/// list of constant expressions. A global's brace list must be; a scalar global whose
/// initializer is not constant gets its value when the program starts.
pub open spec fn spec_constant_initializer(e: Expression) -> bool {
    match e {
        Expression::ArrayInitializer { elements, .. } => all_constant(elements@),
        _ => constant_value(e) is Some,
    }
}

pub open spec fn spec_register_globals(info: InfoView, ds: Seq<Declarator>) -> Option<InfoView>
    decreases ds.len(),
{
    if ds.len() == 0 {
        Some(info)
    } else {
        match spec_register_globals(info, ds.drop_last()) {
            Some(i) => spec_register_global(i, ds.last()),
            None => None,
        }
    }
}

/// A parameter list that is exactly one unnamed `void` marker.
pub open spec fn spec_is_void_marker_list(ps: Seq<Parameter>) -> bool {
    ps.len() == 1 && ps[0].name is None && ps[0].ty@ == void_view()
}

/// The signature recorded for a function definition.
pub open spec fn spec_signature(f: FunctionDeclaration) -> SigView {
    SigView {
        return_type: f.return_type@,
        parameter_types: if spec_is_void_marker_list(f.params@) {
            Seq::empty()
        } else {
            f.params@.map_values(|p: Parameter| p.ty@)
        },
    }
}

/// Registers a function: its name must be new among globals and functions.
pub open spec fn spec_register_function(info: InfoView, f: FunctionDeclaration) -> Option<InfoView> {
    if find_last(info.globals, f.name@) >= 0 || find_last(info.functions, f.name@) >= 0 {
        None
    } else {
        Some(InfoView { functions: info.functions.push((f.name@, spec_signature(f))), ..info })
    }
}

pub open spec fn spec_collect_item(info: InfoView, item: ExternalDeclaration) -> Option<InfoView> {
    match item {
        ExternalDeclaration::GlobalDeclaration(d) => spec_register_globals(info, d.declarators@),
        ExternalDeclaration::Function(f) => spec_register_function(info, f),
        ExternalDeclaration::TypeDeclaration(_) => Some(info),
    }
}

pub open spec fn spec_collect(info: InfoView, items: Seq<ExternalDeclaration>) -> Option<InfoView>
    decreases items.len(),
{
    if items.len() == 0 {
        Some(info)
    } else {
        match spec_collect(info, items.drop_last()) {
            Some(i) => spec_collect_item(i, items.last()),
            None => None,
        }
    }
}

pub open spec fn spec_empty_info() -> InfoView {
    InfoView {
        functions: Seq::empty(),
        globals: Seq::empty(),
        typedefs: Seq::empty(),
        structs: Seq::empty(),
        enum_consts: Seq::empty(),
    }
}

/// The semantic analysis of a translation unit: collect the top-level symbols in order,
/// then check every function body against them.
pub open spec fn spec_analyze(unit: TranslationUnit) -> Option<InfoView> {
    match spec_collect(spec_start_info(unit.top_level_items@), unit.top_level_items@) {
        Some(info) => if spec_functions_ok(info, unit.top_level_items@) {
            Some(info)
        } else {
            None
        },
        None => None,
    }
}

/// The location reported for a function-level error: that of the expression of the body's
/// first item when it is a return or expression statement with an expression.
pub open spec fn first_item_location_of(items: Seq<BlockItem>) -> Option<SourceLocation> {
    if items.len() == 0 {
        None
    } else {
        match items[0] {
            BlockItem::Statement(Statement::Return(Some(e))) => expr_location(e),
            BlockItem::Statement(Statement::Expression(Some(e))) => expr_location(e),
            _ => None,
        }
    }
}

/// The error reported for a parameter that `spec_parameter` rejects.
pub open spec fn parameter_diag(ctx: CtxView, p: Parameter, count: nat) -> SemDiag {
    match p.name {
        Some(name) => if ctx.scopes.len() > 0 && find_last(ctx.scopes.last(), name@) >= 0 {
            diag("multiple parameter declarations with the same name found in function."@, p.location)
        } else {
            declare_diag(ctx)
        },
        None => if p.ty@ == void_view() {
            diag("mixing void parameters with regular parameters or having multiple void parameters isnt allowed."@, p.location)
        } else {
            diag("name not found in non-void parameter"@, p.location)
        },
    }
}

pub open spec fn parameters_diag(ctx: CtxView, ps: Seq<Parameter>, count: nat) -> SemDiag
    decreases ps.len(),
{
    if ps.len() == 0 {
        diag(Seq::empty(), None)
    } else {
        match spec_parameters(ctx, ps.drop_last(), count) {
            Some(c) => parameter_diag(c, ps.last(), count),
            None => parameters_diag(ctx, ps.drop_last(), count),
        }
    }
}

/// The error reported for a function definition that `spec_function_ok` rejects.
pub open spec fn function_diag(info: InfoView, f: FunctionDeclaration) -> SemDiag {
    match spec_parameters(spec_function_context(f), f.params@, f.params@.len()) {
        Some(c) => block_diag(c, info, f.body.items@),
        None => parameters_diag(spec_function_context(f), f.params@, f.params@.len()),
    }
}

/// The error of the first rejected function definition among the items.
pub open spec fn functions_diag(info: InfoView, items: Seq<ExternalDeclaration>) -> SemDiag
    decreases items.len(),
{
    if items.len() == 0 {
        diag(Seq::empty(), None)
    } else if !spec_functions_ok(info, items.drop_last()) {
        functions_diag(info, items.drop_last())
    } else {
        match items.last() {
            ExternalDeclaration::Function(f) => function_diag(info, f),
            _ => diag(Seq::empty(), None),
        }
    }
}

/// The error reported for a global declarator that `spec_register_global` rejects.
pub open spec fn register_global_diag(info: InfoView, d: Declarator) -> SemDiag {
    if find_last(info.globals, d.name@) >= 0 || find_last(info.functions, d.name@) >= 0 {
        diag("duplicate global symbol '"@ + d.name@ + "'"@, match d.initializer {
            Some(e) => expr_location(e),
            None => None,
        })
    } else if !spec_initializer_ok(spec_global_context(), info, spec_normalize(info, d.ty@), d.initializer->0) {
        initializer_diag(spec_global_context(), info, spec_normalize(info, d.ty@), d.initializer->0)
    } else {
        diag("global initializer is not a constant expression"@, expr_location(d.initializer->0))
    }
}

pub open spec fn register_globals_diag(info: InfoView, ds: Seq<Declarator>) -> SemDiag
    decreases ds.len(),
{
    if ds.len() == 0 {
        diag(Seq::empty(), None)
    } else {
        match spec_register_globals(info, ds.drop_last()) {
            Some(i) => register_global_diag(i, ds.last()),
            None => register_globals_diag(info, ds.drop_last()),
        }
    }
}

/// The error reported for a function definition that `spec_register_function` rejects.
pub open spec fn register_function_diag(info: InfoView, f: FunctionDeclaration) -> SemDiag {
    if find_last(info.globals, f.name@) >= 0 {
        diag("symbol '"@ + f.name@ + "' used as both global and function"@, first_item_location_of(f.body.items@))
    } else {
        diag("duplicate function definition for '"@ + f.name@ + "'"@, first_item_location_of(f.body.items@))
    }
}

pub open spec fn collect_item_diag(info: InfoView, item: ExternalDeclaration) -> SemDiag {
    match item {
        ExternalDeclaration::GlobalDeclaration(d) => register_globals_diag(info, d.declarators@),
        ExternalDeclaration::Function(f) => register_function_diag(info, f),
        ExternalDeclaration::TypeDeclaration(_) => diag(Seq::empty(), None),
    }
}

/// The error of the first top-level item whose symbols are rejected.
pub open spec fn collect_diag(info: InfoView, items: Seq<ExternalDeclaration>) -> SemDiag
    decreases items.len(),
{
    if items.len() == 0 {
        diag(Seq::empty(), None)
    } else {
        match spec_collect(info, items.drop_last()) {
            Some(i) => collect_item_diag(i, items.last()),
            None => collect_diag(info, items.drop_last()),
        }
    }
}

/// The error that semantic analysis reports for a unit it rejects: that of collecting the
/// top-level symbols, else that of the first rejected function definition.
pub open spec fn analyze_diag(unit: TranslationUnit) -> SemDiag {
    match spec_collect(spec_start_info(unit.top_level_items@), unit.top_level_items@) {
        Some(info) => functions_diag(info, unit.top_level_items@),
        None => collect_diag(spec_start_info(unit.top_level_items@), unit.top_level_items@),
    }
}

/// Once a function definition is rejected, it is the first rejected one that gives the error.
proof fn lemma_functions_first(info: InfoView, items: Seq<ExternalDeclaration>, i: int, f: FunctionDeclaration)
    requires
        0 <= i < items.len(),
        spec_functions_ok(info, items.take(i)),
        items[i] == ExternalDeclaration::Function(f),
        !spec_function_ok(info, f),
    ensures
        !spec_functions_ok(info, items),
        functions_diag(info, items) == function_diag(info, f),
    decreases items.len(),
{
    assert(!spec_functions_ok(info, items)) by {
        assert(match items[i] {
            ExternalDeclaration::Function(g) => !spec_function_ok(info, g),
            _ => false,
        });
    }
    if i < items.len() - 1 {
        let p = items.drop_last();
        assert(p[i] == items[i]);
        assert(p.take(i) =~= items.take(i));
        lemma_functions_first(info, p, i, f);
    } else {
        assert(items.drop_last() =~= items.take(i));
    }
}

pub proof fn lemma_parameters_prefix_fail(ctx: CtxView, ps: Seq<Parameter>, count: nat, k: int)
    requires
        0 <= k <= ps.len(),
        spec_parameters(ctx, ps.take(k), count) is None,
    ensures
        spec_parameters(ctx, ps, count) is None,
        parameters_diag(ctx, ps, count) == parameters_diag(ctx, ps.take(k), count),
    decreases ps.len() - k,
{
    if k < ps.len() {
        assert(ps.take(k + 1).drop_last() =~= ps.take(k));
        lemma_parameters_prefix_fail(ctx, ps, count, k + 1);
    } else {
        assert(ps.take(k) =~= ps);
    }
}

pub proof fn lemma_globals_prefix_fail(info: InfoView, ds: Seq<Declarator>, k: int)
    requires
        0 <= k <= ds.len(),
        spec_register_globals(info, ds.take(k)) is None,
    ensures
        spec_register_globals(info, ds) is None,
        register_globals_diag(info, ds) == register_globals_diag(info, ds.take(k)),
    decreases ds.len() - k,
{
    if k < ds.len() {
        assert(ds.take(k + 1).drop_last() =~= ds.take(k));
        lemma_globals_prefix_fail(info, ds, k + 1);
    } else {
        assert(ds.take(k) =~= ds);
    }
}

pub proof fn lemma_collect_prefix_fail(info: InfoView, items: Seq<ExternalDeclaration>, k: int)
    requires
        0 <= k <= items.len(),
        spec_collect(info, items.take(k)) is None,
    ensures
        spec_collect(info, items) is None,
        collect_diag(info, items) == collect_diag(info, items.take(k)),
    decreases items.len() - k,
{
    if k < items.len() {
        assert(items.take(k + 1).drop_last() =~= items.take(k));
        lemma_collect_prefix_fail(info, items, k + 1);
    } else {
        assert(items.take(k) =~= items);
    }
}

// ---------------------------------------------------------------------------
// Executable analysis of functions and top-level symbols
// ---------------------------------------------------------------------------

/// Whether the innermost scope already binds the name.
fn current_scope_contains(context: &FunctionContext, name: &String) -> (r: bool)
    ensures
        r == (context@.scopes.len() > 0 && find_last(context@.scopes.last(), name@) >= 0),
{
    let n = context.scopes.len();
    if n == 0 {
        false
    } else {
        context.scopes[n - 1].contains(name)
    }
}

fn empty_context(return_type: &Type) -> (r: FunctionContext)
    ensures
        r@ == (CtxView { scopes: seq![Seq::empty()], return_type: return_type@ }),
{
    let mut scopes: Vec<SymbolMap<Type>> = Vec::new();
    scopes.push(SymbolMap::new());
    let r = FunctionContext { scopes, return_type: copy_type(return_type) };
    assert(r@.scopes =~= seq![Seq::<(Seq<char>, TypeView)>::empty()]);
    r
}

impl SemanticAnalyzer {
    /// Creates a semantic analyzer instance.
    pub fn new() -> (r: Self) {
        SemanticAnalyzer
    }

    /// Analyzes the provided translation unit and returns semantic metadata.
    pub fn analyze(&self, unit: &TranslationUnit) -> (r: Result<SemanticInfo, CompilerError>)
        ensures
            match r {
                Ok(info) => spec_analyze(*unit) == Some(info@),
                Err(e) => spec_analyze(*unit) is None && reports(e, analyze_diag(*unit)),
            },
    {
        let mut info = SemanticInfo {
            function_signatures: SymbolMap::new(),
            global_symbols: SymbolMap::new(),
            type_aliases: SymbolMap::new(),
            struct_definitions: SymbolMap::new(),
            enum_constants: SymbolMap::new(),
        };
        assert(info@ == spec_empty_info());
        collect_type_tables(unit, &mut info);
        self.collect_top_level_symbols(unit, &mut info)?;
        self.analyze_functions(unit, &info)?;
        Ok(info)
    }

    /// Analyzes all function definitions in the translation unit.
    #[verifier::loop_isolation(false)]
    fn analyze_functions(&self, unit: &TranslationUnit, info: &SemanticInfo) -> (r: Result<(), CompilerError>)
        ensures
            match r {
                Ok(_) => spec_functions_ok(info@, unit.top_level_items@),
                Err(e) => !spec_functions_ok(info@, unit.top_level_items@)
                    && reports(e, functions_diag(info@, unit.top_level_items@)),
            },
    {
        let items = &unit.top_level_items;
        let mut i: usize = 0;
        while i < items.len()
            invariant
                0 <= i <= items.len(),
                forall|j: int| 0 <= j < i ==> match #[trigger] items@[j] {
                    ExternalDeclaration::Function(f) => spec_function_ok(info@, f),
                    _ => true,
                },
            decreases items.len() - i,
        {
            if let ExternalDeclaration::Function(function) = &items[i] {
                let mut context = empty_context(&function.return_type);
                let r1 = self.populate_function_parameters(function, &mut context);
                if r1.is_err() {
                    assert(!spec_function_ok(info@, *function));
                    proof {
                        assert(items@.take(i as int) =~= items@.take(i as int));
                        lemma_functions_first(info@, items@, i as int, *function);
                    }
                    return r1;
                }
                let r2 = analyze_block(&mut context, &function.body, info);
                if r2.is_err() {
                    assert(!spec_function_ok(info@, *function));
                    proof { lemma_functions_first(info@, items@, i as int, *function); }
                    return r2;
                }
            }
            i += 1;
        }
        Ok(())
    }

    /// Populates initial function scope with parameters and validates parameter forms.
    #[verifier::loop_isolation(false)]
    fn populate_function_parameters(&self, function: &FunctionDeclaration, context: &mut FunctionContext) -> (r: Result<(), CompilerError>)
        ensures
            match r {
                Ok(_) => spec_parameters(old(context)@, function.params@, function.params@.len()) == Some(final(context)@),
                Err(e) => spec_parameters(old(context)@, function.params@, function.params@.len()) is None
                    && reports(e, parameters_diag(old(context)@, function.params@, function.params@.len())),
            },
    {
        let ghost c0 = context@;
        let params = &function.params;
        let count = params.len();
        let mut i: usize = 0;
        while i < params.len()
            invariant
                0 <= i <= params.len(),
                count == params.len(),
                spec_parameters(c0, params@.take(i as int), count as nat) == Some(context@),
            decreases params.len() - i,
        {
            let ghost t = params@.take(i + 1);
            assert(t.drop_last() =~= params@.take(i as int));
            assert(t.last() == params@[i as int]);
            let parameter = &params[i];
            match &parameter.name {
                Some(name) => {
                    if current_scope_contains(context, name) {
                        proof { lemma_parameters_prefix_fail(c0, params@, count as nat, i + 1); }
                        return Err(sem_err("multiple parameter declarations with the same name found in function.", parameter.location));
                    }
                    let r = declare_in_current_scope(context, name, &parameter.ty);
                    if r.is_err() {
                        proof { lemma_parameters_prefix_fail(c0, params@, count as nat, i + 1); }
                        return r;
                    }
                },
                None => {
                    if matches!(parameter.ty, Type::Builtin(BuiltinType::Void)) {
                        if count != 1 {
                            proof { lemma_parameters_prefix_fail(c0, params@, count as nat, i + 1); }
                            return Err(sem_err("mixing void parameters with regular parameters or having multiple void parameters isnt allowed.", parameter.location));
                        }
                    } else {
                        proof { lemma_parameters_prefix_fail(c0, params@, count as nat, i + 1); }
                        return Err(sem_err("name not found in non-void parameter", parameter.location));
                    }
                },
            }
            i += 1;
        }
        assert(params@.take(params.len() as int) =~= params@);
        Ok(())
    }

    /// Collects global and function symbols from top-level declarations.
    #[verifier::loop_isolation(false)]
    fn collect_top_level_symbols(&self, unit: &TranslationUnit, info: &mut SemanticInfo) -> (r: Result<(), CompilerError>)
        ensures
            match r {
                Ok(_) => spec_collect(old(info)@, unit.top_level_items@) == Some(final(info)@),
                Err(e) => spec_collect(old(info)@, unit.top_level_items@) is None
                    && reports(e, collect_diag(old(info)@, unit.top_level_items@)),
            },
    {
        let ghost i0 = info@;
        let items = &unit.top_level_items;
        let mut i: usize = 0;
        while i < items.len()
            invariant
                0 <= i <= items.len(),
                spec_collect(i0, items@.take(i as int)) == Some(info@),
            decreases items.len() - i,
        {
            let ghost t = items@.take(i + 1);
            assert(t.drop_last() =~= items@.take(i as int));
            assert(t.last() == items@[i as int]);
            let ghost info_before = info@;
            match &items[i] {
                ExternalDeclaration::GlobalDeclaration(declaration) => {
                    let ds = &declaration.declarators;
                    let mut j: usize = 0;
                    while j < ds.len()
                        invariant
                            0 <= j <= ds.len(),
                            spec_register_globals(info_before, ds@.take(j as int)) == Some(info@),
                        decreases ds.len() - j,
                    {
                        let ghost u = ds@.take(j + 1);
                        assert(u.drop_last() =~= ds@.take(j as int));
                        assert(u.last() == ds@[j as int]);
                        let r = register_global(info, &ds[j]);
                        if r.is_err() {
                            proof {
                                lemma_globals_prefix_fail(info_before, ds@, j + 1);
                                lemma_collect_prefix_fail(i0, items@, i + 1);
                            }
                            return r;
                        }
                        j += 1;
                    }
                    assert(ds@.take(ds.len() as int) =~= ds@);
                },
                ExternalDeclaration::Function(function) => {
                    let r = self.register_function(function, info);
                    if r.is_err() {
                        proof { lemma_collect_prefix_fail(i0, items@, i + 1); }
                        return r;
                    }
                },
                ExternalDeclaration::TypeDeclaration(_) => {},
            }
            i += 1;
        }
        assert(items@.take(items.len() as int) =~= items@);
        Ok(())
    }

    /// Registers a function signature and validates duplicate definitions.
    #[verifier::loop_isolation(false)]
    fn register_function(&self, function: &FunctionDeclaration, info: &mut SemanticInfo) -> (r: Result<(), CompilerError>)
        ensures
            match r {
                Ok(_) => spec_register_function(old(info)@, *function) == Some(final(info)@),
                Err(e) => spec_register_function(old(info)@, *function) is None
                    && reports(e, register_function_diag(old(info)@, *function))
                    && final(info)@ == old(info)@,
            },
    {
        if info.global_symbols.contains(&function.name) {
            return Err(CompilerError::semantic_with_location(
                concat3("symbol '", function.name.as_str(), "' used as both global and function"),
                first_item_location(&function.body),
            ));
        }
        if info.function_signatures.contains(&function.name) {
            return Err(CompilerError::semantic_with_location(
                concat3("duplicate function definition for '", function.name.as_str(), "'"),
                first_item_location(&function.body),
            ));
        }
        let params = &function.params;
        let mut parameter_types: Vec<Type> = Vec::new();
        let mut i: usize = 0;
        while i < params.len()
            invariant
                0 <= i <= params.len(),
                parameter_types@.map_values(|t: Type| t@) =~= params@.take(i as int).map_values(|p: Parameter| p.ty@),
            decreases params.len() - i,
        {
            let ghost before = parameter_types@;
            parameter_types.push(copy_type(&params[i].ty));
            assert(params@.take(i + 1) =~= params@.take(i as int).push(params@[i as int]));
            assert(parameter_types@ =~= before.push(parameter_types@.last()));
            assert(parameter_types@.map_values(|t: Type| t@) =~= before.map_values(|t: Type| t@).push(params@[i as int].ty@));
            i += 1;
        }
        assert(params@.take(params.len() as int) =~= params@);
        if params.len() == 1 && params[0].name.is_none() && matches!(params[0].ty, Type::Builtin(BuiltinType::Void)) {
            parameter_types.clear();
            assert(parameter_types@.map_values(|t: Type| t@) =~= Seq::<TypeView>::empty());
        }
        let signature = FunctionSignature { return_type: copy_type(&function.return_type), parameter_types };
        proof {
            assert(signature@ == spec_signature(*function));
        }
        info.function_signatures.insert(function.name.clone(), signature);
        Ok(())
    }
}

/// The location reported for a function-level error: that of the expression in the body's first
/// return or expression statement, when there is one.
fn first_item_location(body: &Block) -> (r: Option<SourceLocation>)
    ensures
        r == first_item_location_of(body.items@),
{
    if body.items.len() == 0 {
        return None;
    }
    match &body.items[0] {
        BlockItem::Statement(Statement::Return(Some(expr))) => expr.location(),
        BlockItem::Statement(Statement::Expression(Some(expr))) => expr.location(),
        _ => None,
    }
}

/// Whether an initializer is known before the program runs.
fn is_constant_initializer(e: &Expression) -> (r: bool)
    ensures
        r == spec_constant_initializer(*e),
{
    match e {
        Expression::ArrayInitializer { elements, .. } => {
            let mut i: usize = 0;
            while i < elements.len()
                invariant
                    0 <= i <= elements.len(),
                    spec_constant_initializer(*e) == all_constant(elements@),
                    forall|k: int| 0 <= k < i ==> (#[trigger] constant_value(elements@[k])) is Some,
                decreases elements.len() - i,
            {
                if evaluate_constant(&elements[i]).is_none() {
                    assert(constant_value(elements@[i as int]) is None);
                    assert(!all_constant(elements@));
                    return false;
                }
                i += 1;
            }
            true
        },
        _ => evaluate_constant(e).is_some(),
    }
}

/// Registers one global declarator, checking its initializer first.
fn register_global(info: &mut SemanticInfo, declarator: &Declarator) -> (r: Result<(), CompilerError>)
    ensures
        match r {
            Ok(_) => spec_register_global(old(info)@, *declarator) == Some(final(info)@),
            Err(e) => spec_register_global(old(info)@, *declarator) is None
                && reports(e, register_global_diag(old(info)@, *declarator))
                && final(info)@ == old(info)@,
        },
{
    if info.global_symbols.contains(&declarator.name) || info.function_signatures.contains(&declarator.name) {
        let location = match &declarator.initializer {
            Some(expr) => expr.location(),
            None => None,
        };
        return Err(CompilerError::semantic_with_location(concat3("duplicate global symbol '", declarator.name.as_str(), "'"), location));
    }
    if let Some(initializer) = &declarator.initializer {
        let global_context = FunctionContext { scopes: Vec::new(), return_type: Type::Builtin(BuiltinType::Void) };
        assert(global_context@.scopes =~= Seq::<Seq<(Seq<char>, TypeView)>>::empty());
        check_initializer(&global_context, &normalize_type(info, &declarator.ty), initializer, info)?;
        if matches!(initializer, Expression::ArrayInitializer { .. }) && !is_constant_initializer(initializer) {
            return Err(sem_err("global initializer is not a constant expression", initializer.location()));
        }
    }
    info.global_symbols.insert(declarator.name.clone(), copy_type(&declarator.ty));
    Ok(())
}


// ---------------------------------------------------------------------------
// Uniqueness of top-level names
// ---------------------------------------------------------------------------

/// The names an item defines at top level: a function's name, a declaration's declarators.
pub open spec fn item_names(item: ExternalDeclaration) -> Seq<Seq<char>> {
    match item {
        ExternalDeclaration::GlobalDeclaration(d) => d.declarators@.map_values(|x: Declarator| x.name@),
        ExternalDeclaration::Function(f) => seq![f.name@],
        ExternalDeclaration::TypeDeclaration(_) => Seq::empty(),
    }
}

/// Every top-level name of a unit, in order.
pub open spec fn top_level_names(items: Seq<ExternalDeclaration>) -> Seq<Seq<char>>
    decreases items.len(),
{
    if items.len() == 0 {
        Seq::empty()
    } else {
        top_level_names(items.drop_last()) + item_names(items.last())
    }
}

/// No name occurs twice.
pub open spec fn all_distinct(names: Seq<Seq<char>>) -> bool {
    forall|i: int, j: int| 0 <= i < j < names.len() ==> names[i] != names[j]
}

/// The name is a function or a global of `info`.
pub open spec fn registered(info: InfoView, n: Seq<char>) -> bool {
    find_last(info.functions, n) >= 0 || find_last(info.globals, n) >= 0
}

proof fn lemma_register_globals_names(info: InfoView, ds: Seq<Declarator>)
    ensures
        spec_register_globals(info, ds) matches Some(i2) ==> {
            &&& forall|n: Seq<char>| registered(info, n) ==> #[trigger] registered(i2, n)
            &&& forall|k: int| 0 <= k < ds.len() ==> registered(i2, #[trigger] ds[k].name@) && !registered(info, ds[k].name@)
            &&& all_distinct(ds.map_values(|x: Declarator| x.name@))
        },
    decreases ds.len(),
{
    if ds.len() > 0 {
        let prefix = ds.drop_last();
        lemma_register_globals_names(info, prefix);
        match spec_register_globals(info, prefix) {
            Some(i1) => match spec_register_global(i1, ds.last()) {
                Some(i2) => {
                    let d = ds.last();
                    assert forall|n: Seq<char>| registered(i1, n) implies #[trigger] registered(i2, n) by {
                        lemma_find_last_push(i1.globals, n, (d.name@, d.ty@));
                    }
                    lemma_find_last_push(i1.globals, d.name@, (d.name@, d.ty@));
                    assert forall|k: int| 0 <= k < ds.len() implies registered(i2, #[trigger] ds[k].name@)
                        && !registered(info, ds[k].name@) by {
                        if k < ds.len() - 1 {
                            assert(prefix[k] == ds[k]);
                            assert(registered(i1, prefix[k].name@));
                        } else {
                            assert(!registered(i1, d.name@));
                        }
                    }
                    let names = ds.map_values(|x: Declarator| x.name@);
                    let pnames = prefix.map_values(|x: Declarator| x.name@);
                    assert forall|i: int, j: int| 0 <= i < j < names.len() implies names[i] != names[j] by {
                        assert(names[i] == ds[i].name@);
                        assert(names[j] == ds[j].name@);
                        if j < ds.len() - 1 {
                            assert(pnames[i] == prefix[i].name@ && prefix[i] == ds[i]);
                            assert(pnames[j] == prefix[j].name@ && prefix[j] == ds[j]);
                        } else {
                            assert(prefix[i] == ds[i]);
                            assert(registered(i1, prefix[i].name@));
                        }
                    }
                },
                None => {},
            },
            None => {},
        }
    }
}

proof fn lemma_collect_names(info: InfoView, items: Seq<ExternalDeclaration>)
    ensures
        spec_collect(info, items) matches Some(i2) ==> {
            &&& forall|n: Seq<char>| registered(info, n) ==> #[trigger] registered(i2, n)
            &&& forall|k: int| 0 <= k < top_level_names(items).len()
                ==> registered(i2, #[trigger] top_level_names(items)[k]) && !registered(info, top_level_names(items)[k])
            &&& all_distinct(top_level_names(items))
        },
    decreases items.len(),
{
    if items.len() > 0 {
        let prefix = items.drop_last();
        lemma_collect_names(info, prefix);
        let pn = top_level_names(prefix);
        let last = items.last();
        let ln = item_names(last);
        let names = top_level_names(items);
        assert(names == pn + ln);
        match spec_collect(info, prefix) {
            Some(i1) => match spec_collect_item(i1, last) {
                Some(i2) => {
                    assert((forall|n: Seq<char>| registered(i1, n) ==> #[trigger] registered(i2, n))
                        && (forall|k: int| 0 <= k < ln.len() ==> registered(i2, #[trigger] ln[k]) && !registered(i1, ln[k]))
                        && all_distinct(ln)) by {
                        match last {
                            ExternalDeclaration::GlobalDeclaration(d) => {
                                lemma_register_globals_names(i1, d.declarators@);
                                assert forall|k: int| 0 <= k < ln.len() implies registered(i2, #[trigger] ln[k])
                                    && !registered(i1, ln[k]) by {
                                    assert(ln[k] == d.declarators@[k].name@);
                                }
                            },
                            ExternalDeclaration::Function(f) => {
                                assert forall|n: Seq<char>| registered(i1, n) implies #[trigger] registered(i2, n) by {
                                    lemma_find_last_push(i1.functions, n, (f.name@, spec_signature(f)));
                                }
                                lemma_find_last_push(i1.functions, f.name@, (f.name@, spec_signature(f)));
                            },
                            ExternalDeclaration::TypeDeclaration(_) => {},
                        }
                    }
                    assert forall|k: int| 0 <= k < names.len()
                        implies registered(i2, #[trigger] names[k]) && !registered(info, names[k]) by {
                        if k < pn.len() {
                            assert(names[k] == pn[k]);
                            assert(registered(i1, pn[k]));
                        } else {
                            assert(names[k] == ln[k - pn.len()]);
                            assert(!registered(i1, ln[k - pn.len()]));
                        }
                    }
                    assert forall|i: int, j: int| 0 <= i < j < names.len() implies names[i] != names[j] by {
                        if j < pn.len() {
                            assert(names[i] == pn[i] && names[j] == pn[j]);
                        } else if i >= pn.len() {
                            assert(names[i] == ln[i - pn.len()] && names[j] == ln[j - pn.len()]);
                        } else {
                            assert(names[i] == pn[i] && registered(i1, pn[i]));
                            assert(names[j] == ln[j - pn.len()] && !registered(i1, ln[j - pn.len()]));
                        }
                    }
                },
                None => {},
            },
            None => {},
        }
    }
}

/// A name is defined at most once at top level: every unit that semantic analysis accepts
/// has pairwise distinct function and global names (a duplicate function definition, a
/// duplicate global, or a global named like a function is rejected).
pub proof fn law_top_level_names_are_unique(unit: TranslationUnit)
    ensures
        spec_analyze(unit) is Some ==> all_distinct(top_level_names(unit.top_level_items@)),
{
    lemma_collect_names(spec_start_info(unit.top_level_items@), unit.top_level_items@);
}

// ---------------------------------------------------------------------------
// Scopes of blocks
// ---------------------------------------------------------------------------

/// The name is declared in the innermost scope.
pub open spec fn in_scope(ctx: CtxView, n: Seq<char>) -> bool {
    ctx.scopes.len() > 0 && find_last(ctx.scopes.last(), n) >= 0
}

/// `c` is `ctx` with declarations added to its innermost scope only.
pub open spec fn grows_scope(ctx: CtxView, c: CtxView) -> bool {
    &&& c.return_type == ctx.return_type
    &&& c.scopes.len() == ctx.scopes.len()
    &&& forall|i: int| 0 <= i < ctx.scopes.len() - 1 ==> #[trigger] c.scopes[i] == ctx.scopes[i]
    &&& forall|n: Seq<char>| in_scope(ctx, n) ==> #[trigger] in_scope(c, n)
}

/// The names a block item declares: those of a declaration's declarators.
pub open spec fn item_decl_names(item: BlockItem) -> Seq<Seq<char>> {
    match item {
        BlockItem::Declaration(d) => d.declarators@.map_values(|x: Declarator| x.name@),
        BlockItem::Statement(_) => Seq::empty(),
    }
}

/// The names that the declarations directly in a block declare, in order.
pub open spec fn block_names(items: Seq<BlockItem>) -> Seq<Seq<char>>
    decreases items.len(),
{
    if items.len() == 0 {
        Seq::empty()
    } else {
        block_names(items.drop_last()) + item_decl_names(items.last())
    }
}

proof fn lemma_declare_scope(ctx: CtxView, n: Seq<char>, ty: TypeView)
    ensures
        spec_declare(ctx, n, ty) matches Some(c) ==> grows_scope(ctx, c) && in_scope(c, n) && !in_scope(ctx, n),
{
    match spec_declare(ctx, n, ty) {
        Some(c) => {
            let last = ctx.scopes.last();
            assert(c.scopes.last() == last.push((n, ty)));
            lemma_find_last_push(last, n, (n, ty));
            assert forall|m: Seq<char>| in_scope(ctx, m) implies #[trigger] in_scope(c, m) by {
                lemma_find_last_push(last, m, (n, ty));
            }
        },
        None => {},
    }
}

proof fn lemma_declarators_scope(ctx: CtxView, info: InfoView, ds: Seq<Declarator>)
    ensures
        spec_declarators(ctx, info, ds) matches Some(c) ==> {
            let names = ds.map_values(|x: Declarator| x.name@);
            &&& grows_scope(ctx, c)
            &&& forall|k: int| 0 <= k < names.len() ==> in_scope(c, #[trigger] names[k]) && !in_scope(ctx, names[k])
            &&& all_distinct(names)
        },
    decreases ds.len(),
{
    if ds.len() > 0 {
        let prefix = ds.drop_last();
        lemma_declarators_scope(ctx, info, prefix);
        match spec_declarators(ctx, info, prefix) {
            Some(c1) => {
                let d = ds.last();
                lemma_declare_scope(c1, d.name@, d.ty@);
                match spec_declarator(c1, info, d) {
                    Some(c) => {
                        let names = ds.map_values(|x: Declarator| x.name@);
                        let pnames = prefix.map_values(|x: Declarator| x.name@);
                        assert forall|k: int| 0 <= k < names.len() implies in_scope(c, #[trigger] names[k])
                            && !in_scope(ctx, names[k]) by {
                            assert(names[k] == ds[k].name@);
                            if k < names.len() - 1 {
                                assert(pnames[k] == prefix[k].name@ && prefix[k] == ds[k]);
                                assert(in_scope(c1, pnames[k]));
                            }
                        }
                        assert forall|i: int, j: int| 0 <= i < j < names.len() implies names[i] != names[j] by {
                            assert(names[i] == ds[i].name@ && names[j] == ds[j].name@);
                            assert(pnames[i] == prefix[i].name@ && prefix[i] == ds[i]);
                            if j < names.len() - 1 {
                                assert(pnames[j] == prefix[j].name@ && prefix[j] == ds[j]);
                            } else {
                                assert(in_scope(c1, pnames[i]));
                            }
                        }
                    },
                    None => {},
                }
            },
            None => {},
        }
    }
}

proof fn lemma_stmt_scope(ctx: CtxView, info: InfoView, s: Statement)
    ensures
        spec_stmt(ctx, info, s) matches Some(c) ==> c == ctx,
    decreases s,
{
    match s {
        Statement::Block(b) => {
            let pushed = spec_push_scope(ctx);
            lemma_items_scope(pushed, info, b.items@);
            match spec_items(pushed, info, b.items@) {
                Some(c) => {
                    assert(c.scopes.drop_last() =~= ctx.scopes) by {
                        assert forall|i: int| 0 <= i < ctx.scopes.len() implies c.scopes[i] == ctx.scopes[i] by {
                            assert(pushed.scopes[i] == ctx.scopes[i]);
                        }
                    }
                },
                None => {},
            }
        },
        Statement::If { condition, then_branch, else_branch } => {
            lemma_stmt_scope(ctx, info, *then_branch);
            match else_branch {
                Some(e) => lemma_stmt_scope(ctx, info, *e),
                None => {},
            }
        },
        Statement::While { body, .. } => lemma_stmt_scope(ctx, info, *body),
        Statement::For { body, .. } => lemma_stmt_scope(ctx, info, *body),
        _ => {},
    }
}

proof fn lemma_items_scope(ctx: CtxView, info: InfoView, items: Seq<BlockItem>)
    ensures
        spec_items(ctx, info, items) matches Some(c) ==> {
            let names = block_names(items);
            &&& grows_scope(ctx, c)
            &&& forall|k: int| 0 <= k < names.len() ==> in_scope(c, #[trigger] names[k]) && !in_scope(ctx, names[k])
            &&& all_distinct(names)
        },
    decreases items,
{
    if items.len() > 0 {
        let prefix = items.drop_last();
        lemma_items_scope(ctx, info, prefix);
        match spec_items(ctx, info, prefix) {
            Some(c1) => {
                lemma_item_scope(c1, info, items.last());
                match spec_item(c1, info, items.last()) {
                    Some(c) => {
                        let pn = block_names(prefix);
                        let ln = item_decl_names(items.last());
                        let names = block_names(items);
                        assert(names == pn + ln);
                        assert forall|k: int| 0 <= k < names.len() implies in_scope(c, #[trigger] names[k])
                            && !in_scope(ctx, names[k]) by {
                            if k < pn.len() {
                                assert(names[k] == pn[k]);
                                assert(in_scope(c1, pn[k]));
                            } else {
                                assert(names[k] == ln[k - pn.len()]);
                                assert(!in_scope(c1, ln[k - pn.len()]));
                            }
                        }
                        assert forall|i: int, j: int| 0 <= i < j < names.len() implies names[i] != names[j] by {
                            if j < pn.len() {
                                assert(names[i] == pn[i] && names[j] == pn[j]);
                            } else if i >= pn.len() {
                                assert(names[i] == ln[i - pn.len()] && names[j] == ln[j - pn.len()]);
                            } else {
                                assert(names[i] == pn[i] && in_scope(c1, pn[i]));
                                assert(names[j] == ln[j - pn.len()] && !in_scope(c1, ln[j - pn.len()]));
                            }
                        }
                    },
                    None => {},
                }
            },
            None => {},
        }
    }
}

proof fn lemma_item_scope(ctx: CtxView, info: InfoView, item: BlockItem)
    ensures
        spec_item(ctx, info, item) matches Some(c) ==> {
            let names = item_decl_names(item);
            &&& grows_scope(ctx, c)
            &&& forall|k: int| 0 <= k < names.len() ==> in_scope(c, #[trigger] names[k]) && !in_scope(ctx, names[k])
            &&& all_distinct(names)
        },
    decreases item,
{
    match item {
        BlockItem::Declaration(d) => lemma_declarators_scope(ctx, info, d.declarators@),
        BlockItem::Statement(s) => lemma_stmt_scope(ctx, info, s),
    }
}

/// A name is declared at most once in a scope: when the items of a block are accepted, the
/// names that its own declarations introduce are pairwise distinct, and none of them was
/// already in the innermost scope (for a function body, that scope holds the parameters).
pub proof fn law_block_names_are_unique(ctx: CtxView, info: InfoView, items: Seq<BlockItem>)
    ensures
        spec_items(ctx, info, items) is Some ==> {
            let names = block_names(items);
            &&& all_distinct(names)
            &&& forall|k: int| 0 <= k < names.len() ==> !in_scope(ctx, #[trigger] names[k])
        },
{
    lemma_items_scope(ctx, info, items);
}

/// A statement leaves the scopes as it found them: the declarations of a nested block end
/// with the block.
pub proof fn law_statements_keep_scopes(ctx: CtxView, info: InfoView, s: Statement)
    ensures
        spec_stmt(ctx, info, s) matches Some(c) ==> c == ctx,
{
    lemma_stmt_scope(ctx, info, s);
}

/// Shadowing: in a newly entered block any name can be declared, whatever outer scopes hold.
pub proof fn law_new_block_accepts_any_name(ctx: CtxView, n: Seq<char>, ty: TypeView)
    ensures
        spec_declare(spec_push_scope(ctx), n, ty) is Some,
{
}

// ---------------------------------------------------------------------------
// Rules of the subset
// ---------------------------------------------------------------------------

/// A name that is neither a variable in scope, a function, nor an enumeration constant is
/// rejected.
pub proof fn law_undeclared_identifier_rejected(ctx: CtxView, info: InfoView, name: String, location: Option<SourceLocation>)
    requires
        spec_lookup_variable(ctx, info, name@) is None,
        assoc_get(info.functions, name@) is None,
        assoc_get(info.enum_consts, name@) is None,
    ensures
        spec_expr(ctx, info, Expression::Identifier { name, location }) is None,
{
}

/// Only identifiers, dereferences, index expressions and member accesses can be assigned to.
pub proof fn law_assignment_needs_lvalue(ctx: CtxView, info: InfoView, target: Expression, value: Expression,
    location: Option<SourceLocation>)
    requires
        !spec_is_lvalue(target),
    ensures
        spec_expr(ctx, info, Expression::Assignment { target: Box::new(target), value: Box::new(value), location }) is None,
{
}

/// A call must pass as many arguments as the function has parameters.
pub proof fn law_call_arity_must_match(ctx: CtxView, info: InfoView, callee: Expression, args: Vec<Expression>,
    location: Option<SourceLocation>, sig: SigView)
    requires
        callee matches Expression::Identifier { name, .. } && assoc_get(info.functions, name@) == Some(sig),
        sig.parameter_types.len() != args@.len(),
    ensures
        spec_expr(ctx, info, Expression::Call { callee: Box::new(callee), args, location }) is None,
{
}

/// `return expr;` is rejected in a `void` function and `return;` in any other.
pub proof fn law_return_matches_function(ctx: CtxView, info: InfoView, e: Expression)
    ensures
        ctx.return_type == void_view() ==> spec_stmt(ctx, info, Statement::Return(Some(e))) is None,
        ctx.return_type != void_view() ==> spec_stmt(ctx, info, Statement::Return(None)) is None,
{
}


/// Whether a type is one of the scalar types: `int`, `char` or a pointer.
pub open spec fn is_int_char_or_pointer(t: TypeView) -> bool {
    t == TypeView::Builtin(BuiltinType::Int) || t == TypeView::Builtin(BuiltinType::Char) || t is Pointer
}

/// `&&` and `||` take operands of any scalar type (`int`, `char` or a pointer, so `p && *p`
/// is accepted for a pointer `p`) and give an `int` that is not an lvalue; they refuse any
/// other operand type. Each operand obeys the same rule as the operand of `!`.
pub proof fn law_logical_operators_take_scalar_operands(op: BinaryOp, l: TypeView, r: TypeView, l_lvalue: bool,
    r_lvalue: bool)
    requires
        op == BinaryOp::LogicalAnd || op == BinaryOp::LogicalOr,
    ensures
        spec_binary(op, l, r) == (if is_int_char_or_pointer(l) && is_int_char_or_pointer(r) {
            Some(ev(TypeView::Builtin(BuiltinType::Int), false))
        } else {
            None
        }),
        spec_binary(op, l, r) is Some <==> (spec_unary(UnaryOp::LogicalNot, ev(l, l_lvalue)) is Some
            && spec_unary(UnaryOp::LogicalNot, ev(r, r_lvalue)) is Some),
{
}

/// The typing of `a && b` and `a || b` in context: when both operands are well typed, the
/// expression is an `int` (not an lvalue) exactly when both operand types are scalar
/// (`int`, `char` or a pointer), and is refused otherwise.
pub proof fn law_logical_expression_typing(ctx: CtxView, info: InfoView, op: BinaryOp, a: Expression, b: Expression,
    location: Option<SourceLocation>)
    requires
        op == BinaryOp::LogicalAnd || op == BinaryOp::LogicalOr,
        spec_expr(ctx, info, a) is Some,
        spec_expr(ctx, info, b) is Some,
    ensures
        spec_expr(ctx, info, Expression::Binary { op, lhs: Box::new(a), rhs: Box::new(b), location })
            == (if is_int_char_or_pointer(spec_expr(ctx, info, a)->0.ty) && is_int_char_or_pointer(spec_expr(ctx, info, b)->0.ty) {
            Some(ev(TypeView::Builtin(BuiltinType::Int), false))
        } else {
            None
        }),
{
}


/// The typing rules of the operators that need integer operands: `*`, `/`, `%` take two
/// operands of the same integer type (`int` or `char`) and give that type, the relational
/// operators take the same operands and give `int`; any other operands (a pointer, or
/// `int` with `char`) are refused. No binary operator gives an lvalue.
pub proof fn law_integer_operators_need_matching_integer_operands(op: BinaryOp, l: TypeView, r: TypeView)
    ensures
        spec_binary(op, l, r) matches Some(e) ==> !e.is_lvalue,
        (op == BinaryOp::Multiply || op == BinaryOp::Divide || op == BinaryOp::Modulo) ==> spec_binary(op, l, r) == (
            if l == r && (l == TypeView::Builtin(BuiltinType::Int) || l == TypeView::Builtin(BuiltinType::Char)) {
                Some(ev(l, false))
            } else {
                None
            }),
        (op == BinaryOp::Less || op == BinaryOp::LessEqual || op == BinaryOp::Greater || op == BinaryOp::GreaterEqual)
            ==> spec_binary(op, l, r) == (
            if l == r && (l == TypeView::Builtin(BuiltinType::Int) || l == TypeView::Builtin(BuiltinType::Char)) {
                Some(ev(TypeView::Builtin(BuiltinType::Int), false))
            } else {
                None
            }),
{
}

/// The typing rules of the unary operators: `&x` needs an lvalue and gives a pointer to its
/// type; `*x` needs a pointer and gives an lvalue of the pointed-to type; `+x` and `-x` need
/// `int` or `char` and keep the type; `!x` needs `int`, `char` or a pointer and gives `int`.
pub proof fn law_unary_operator_typing(t: TypeView, lvalue: bool)
    ensures
        spec_unary(UnaryOp::AddressOf, ev(t, lvalue))
            == (if lvalue { Some(ev(TypeView::Pointer(Box::new(t)), false)) } else { None }),
        spec_unary(UnaryOp::Dereference, ev(t, lvalue)) == (match t {
            TypeView::Pointer(p) => Some(ev(*p, true)),
            _ => None,
        }),
        spec_unary(UnaryOp::Minus, ev(t, lvalue)) == (if t == TypeView::Builtin(BuiltinType::Int)
            || t == TypeView::Builtin(BuiltinType::Char) { Some(ev(t, false)) } else { None }),
        spec_unary(UnaryOp::Plus, ev(t, lvalue)) == (if t == TypeView::Builtin(BuiltinType::Int)
            || t == TypeView::Builtin(BuiltinType::Char) { Some(ev(t, false)) } else { None }),
        spec_unary(UnaryOp::LogicalNot, ev(t, lvalue)) == (if is_int_char_or_pointer(t) {
            Some(ev(TypeView::Builtin(BuiltinType::Int), false))
        } else {
            None
        }),
{
}

} // verus!
