//! What the MARIE emitter produces, stated over the AST and a model of its state.
use vstd::prelude::*;
use crate::ast::{constant_value, BinaryOp, BlockItem, BuiltinType, Declarator, Expression, ExternalDeclaration,
    FieldView, FunctionDeclaration, Parameter, Statement, TranslationUnit, Type, TypeView, UnaryOp};
use crate::error::CompilerError;
use crate::symbols::assoc_get;
use crate::text::{dec_int, dec_nat};

verus! {

// ---------------------------------------------------------------------------
// State of the emitter
// ---------------------------------------------------------------------------

/// Model of the emitter's state.
#[verifier::ext_equal]
pub struct EmitView {
    /// Code section, one line per entry.
    pub instructions: Seq<Seq<char>>,
    /// Data section, one line per entry.
    pub data: Seq<Seq<char>>,
    /// Planned functions: name and parameter count.
    pub functions: Seq<(Seq<char>, usize)>,
    /// Planned globals: name and storage label.
    pub globals: Seq<(Seq<char>, Seq<char>)>,
    /// Integer constants (other than 0 and 1) that already have a data cell.
    pub int_consts: Seq<i64>,
    /// Labels whose address already has a data cell, with that cell's label.
    pub addr_consts: Seq<(Seq<char>, Seq<char>)>,
    /// Next fresh label number.
    pub label_counter: usize,
    pub has_zero_const: bool,
    pub has_one_const: bool,
    pub needs_mul_helper: bool,
    pub needs_mod_helper: bool,
    pub needs_div_helper: bool,
    /// The declared type of each storage label.
    pub label_types: Seq<(Seq<char>, TypeView)>,
    /// Struct definitions by tag.
    pub structs: Seq<(Seq<char>, TypeView)>,
    /// Types introduced by `typedef`, by name.
    pub typedefs: Seq<(Seq<char>, TypeView)>,
    /// Enumeration constants and their values.
    pub enum_consts: Seq<(Seq<char>, i64)>,
}

/// Model of the per-function context: the function's name and its scopes, innermost last.
#[verifier::ext_equal]
pub struct EmitContextView {
    pub function_name: Seq<char>,
    pub scopes: Seq<Seq<(Seq<char>, Seq<char>)>>,
}

/// Why emission stops.
pub enum EmitFault {
    MissingFunctionLabels(Seq<char>),
    UnresolvedSymbol(Seq<char>),
    UnsupportedOperator(BinaryOp),
    AssignmentTarget,
    CallTarget,
    MissingPlannedFunction(Seq<char>),
    ArrayInitializer,
    AddressOfTarget,
    MemberAccess,
    IncDecTarget,
}

/// Name of a binary operator as it appears in diagnostics.
pub open spec fn binary_op_name(op: BinaryOp) -> Seq<char> {
    match op {
        BinaryOp::Multiply => "Multiply"@,
        BinaryOp::Modulo => "Modulo"@,
        BinaryOp::Add => "Add"@,
        BinaryOp::Subtract => "Subtract"@,
        BinaryOp::Less => "Less"@,
        BinaryOp::LessEqual => "LessEqual"@,
        BinaryOp::Greater => "Greater"@,
        BinaryOp::GreaterEqual => "GreaterEqual"@,
        BinaryOp::Equal => "Equal"@,
        BinaryOp::NotEqual => "NotEqual"@,
        BinaryOp::LogicalAnd => "LogicalAnd"@,
        BinaryOp::LogicalOr => "LogicalOr"@,
        BinaryOp::Divide => "Divide"@,
        BinaryOp::ShiftLeft => "ShiftLeft"@,
        BinaryOp::ShiftRight => "ShiftRight"@,
        BinaryOp::BitwiseAnd => "BitwiseAnd"@,
        BinaryOp::BitwiseOr => "BitwiseOr"@,
        BinaryOp::BitwiseXor => "BitwiseXor"@,
    }
}

/// The error reported for a fault: its kind and its exact message, without location.
pub open spec fn fault_error(e: CompilerError, f: EmitFault) -> bool {
    match f {
        EmitFault::MissingFunctionLabels(n) => e matches CompilerError::Semantic(d)
            && d.message@ == "missing function labels for '"@ + n + "'"@ && d.location is None,
        EmitFault::UnresolvedSymbol(n) => e matches CompilerError::Semantic(d)
            && d.message@ == "unresolved symbol '"@ + n + "' during codegen"@ && d.location is None,
        EmitFault::UnsupportedOperator(op) => e matches CompilerError::Unsupported(d)
            && d.message@ == "binary operator "@ + binary_op_name(op) + " not supported by target"@
            && d.location is None,
        EmitFault::AssignmentTarget => e matches CompilerError::Semantic(d)
            && d.message@ == "unsupported assignment target in codegen"@ && d.location is None,
        EmitFault::CallTarget => e matches CompilerError::Semantic(d)
            && d.message@ == "call target must be a function identifier"@ && d.location is None,
        EmitFault::MissingPlannedFunction(n) => e matches CompilerError::Semantic(d)
            && d.message@ == "missing planned function '"@ + n + "' in codegen"@ && d.location is None,
        EmitFault::ArrayInitializer => e matches CompilerError::Semantic(d)
            && d.message@ == "array initializer should not be emitted directly"@ && d.location is None,
        EmitFault::AddressOfTarget => e matches CompilerError::Semantic(d)
            && d.message@ == "unsupported address-of target in codegen"@ && d.location is None,
        EmitFault::MemberAccess => e matches CompilerError::Unsupported(d)
            && d.message@ == "member access not supported by target"@ && d.location is None,
        EmitFault::IncDecTarget => e matches CompilerError::Semantic(d)
            && d.message@ == "unsupported increment or decrement target in codegen"@ && d.location is None,
    }
}

/// A step of emission ended as the model says: on success in that state, on failure with
/// that fault's error.
pub open spec fn emitted(spec: Result<EmitView, EmitFault>, r: Result<(), CompilerError>, after: EmitView) -> bool {
    match spec {
        Ok(s) => r is Ok && after =~= s,
        Err(f) => r matches Err(e) && fault_error(e, f),
    }
}

/// The same for a step that also changes the function context.
pub open spec fn emitted_in(
    spec: Result<(EmitView, EmitContextView), EmitFault>,
    r: Result<(), CompilerError>,
    after: EmitView,
    ctx_after: EmitContextView,
) -> bool {
    match spec {
        Ok(p) => r is Ok && after =~= p.0 && ctx_after =~= p.1,
        Err(f) => r matches Err(e) && fault_error(e, f),
    }
}

pub open spec fn empty_state() -> EmitView {
    EmitView {
        instructions: Seq::empty(),
        data: Seq::empty(),
        functions: Seq::empty(),
        globals: Seq::empty(),
        int_consts: Seq::empty(),
        addr_consts: Seq::empty(),
        label_counter: 0,
        has_zero_const: false,
        has_one_const: false,
        needs_mul_helper: false,
        needs_mod_helper: false,
        needs_div_helper: false,
        label_types: Seq::empty(),
        structs: Seq::empty(),
        typedefs: Seq::empty(),
        enum_consts: Seq::empty(),
    }
}

// ---------------------------------------------------------------------------
// Elementary steps
// ---------------------------------------------------------------------------

pub open spec fn with_instrs(s: EmitView, lines: Seq<Seq<char>>) -> EmitView {
    EmitView { instructions: s.instructions + lines, ..s }
}

pub open spec fn with_instr(s: EmitView, line: Seq<char>) -> EmitView {
    EmitView { instructions: s.instructions.push(line), ..s }
}

pub open spec fn with_data(s: EmitView, line: Seq<char>) -> EmitView {
    EmitView { data: s.data.push(line), ..s }
}

pub open spec fn with_datas(s: EmitView, lines: Seq<Seq<char>>) -> EmitView {
    EmitView { data: s.data + lines, ..s }
}

/// The label counter after taking one number (it wraps at the top of its range).
pub open spec fn next_counter(c: usize) -> usize {
    if c == usize::MAX {
        0
    } else {
        (c + 1) as usize
    }
}

/// The state after taking a fresh label number (`s.label_counter`).
pub open spec fn bump(s: EmitView) -> EmitView {
    EmitView { label_counter: next_counter(s.label_counter), ..s }
}

pub open spec fn num(n: usize) -> Seq<char> {
    dec_nat(n as nat)
}

pub open spec fn ensure_zero(s: EmitView) -> EmitView {
    if s.has_zero_const {
        s
    } else {
        EmitView { has_zero_const: true, ..with_data(s, "const_zero, DEC 0"@) }
    }
}

pub open spec fn ensure_one(s: EmitView) -> EmitView {
    if s.has_one_const {
        s
    } else {
        EmitView { has_one_const: true, ..with_data(s, "const_one, DEC 1"@) }
    }
}

/// Label of the data cell that holds an integer constant.
pub open spec fn int_const_label(v: i64) -> Seq<char> {
    if v == 0 {
        "const_zero"@
    } else if v == 1 {
        "const_one"@
    } else if v < 0 {
        "const_int_neg_"@ + dec_nat((-(v as int)) as nat)
    } else {
        "const_int_"@ + dec_nat(v as nat)
    }
}

/// Gives the constant `v` a data cell unless it has one.
pub open spec fn ensure_int_const(s: EmitView, v: i64) -> EmitView {
    if v == 0 {
        ensure_zero(s)
    } else if v == 1 {
        ensure_one(s)
    } else if s.int_consts.contains(v) {
        s
    } else {
        EmitView {
            int_consts: s.int_consts.push(v),
            ..with_data(s, int_const_label(v) + ", DEC "@ + dec_int(v as int))
        }
    }
}

/// Gives the address of `label` a data cell unless it has one; the second part is that
/// cell's label.
pub open spec fn ensure_addr_const(s: EmitView, label: Seq<char>) -> (EmitView, Seq<char>) {
    match assoc_get(s.addr_consts, label) {
        Some(a) => (s, a),
        None => (
            EmitView {
                addr_consts: s.addr_consts.push((label, "addr_"@ + label)),
                ..with_data(s, "addr_"@ + label + ", ADR "@ + label)
            },
            "addr_"@ + label,
        ),
    }
}

/// Adds the scratch cells for indexed and indirect access unless the data has them.
pub open spec fn ensure_index_cells(s: EmitView) -> EmitView {
    if crate::codegen::emitter::any_line_starts_with(s.data, "helper_addr,"@) {
        s
    } else {
        with_datas(s, seq!["helper_addr, DEC 0"@, "helper_index, DEC 0"@, "helper_store_value, DEC 0"@])
    }
}

/// The label bound to `name` in the innermost scope that binds it.
pub open spec fn lookup_scopes(scopes: Seq<Seq<(Seq<char>, Seq<char>)>>, name: Seq<char>) -> Option<Seq<char>>
    decreases scopes.len(),
{
    if scopes.len() == 0 {
        None
    } else {
        match assoc_get(scopes.last(), name) {
            Some(l) => Some(l),
            None => lookup_scopes(scopes.drop_last(), name),
        }
    }
}

/// Storage label of a symbol: local scopes first, then globals.
pub open spec fn resolve(s: EmitView, c: EmitContextView, name: Seq<char>) -> Result<Seq<char>, EmitFault> {
    match lookup_scopes(c.scopes, name) {
        Some(l) => Ok(l),
        None => match assoc_get(s.globals, name) {
            Some(g) => Ok(g),
            None => Err(EmitFault::UnresolvedSymbol(name)),
        },
    }
}

pub open spec fn fn_entry(name: Seq<char>) -> Seq<char> {
    "fn_"@ + name
}

pub open spec fn fn_ret(name: Seq<char>) -> Seq<char> {
    "fn_"@ + name + "_ret"@
}

pub open spec fn fn_end(name: Seq<char>) -> Seq<char> {
    "fn_"@ + name + "_end"@
}

pub open spec fn param_label(name: Seq<char>, i: int) -> Seq<char> {
    "fn_"@ + name + "_param_"@ + dec_nat(i as nat)
}

// ---------------------------------------------------------------------------
// Types and layout
// ---------------------------------------------------------------------------

/// A type with a `typedef` name replaced by the type it names.
pub open spec fn resolve_alias(s: EmitView, t: TypeView) -> TypeView {
    match t {
        TypeView::Alias(n) => match assoc_get(s.typedefs, n) {
            Some(u) => u,
            None => t,
        },
        _ => t,
    }
}

/// The fields of a struct type (a tag without a body names the struct defined under it).
pub open spec fn struct_fields(s: EmitView, t: TypeView) -> Option<Seq<FieldView>> {
    match resolve_alias(s, t) {
        TypeView::Struct(name, fields) => if fields.len() > 0 {
            Some(fields)
        } else {
            match assoc_get(s.structs, name) {
                Some(TypeView::Struct(_, fs)) => if fs.len() > 0 { Some(fs) } else { None },
                _ => None,
            }
        },
        _ => None,
    }
}

/// Number of memory words a value of the type takes: one per field for a struct, else one.
pub open spec fn type_size(s: EmitView, t: TypeView) -> nat {
    match struct_fields(s, t) {
        Some(fs) => fs.len(),
        None => 1,
    }
}

/// The type that a pointer or an array holds.
pub open spec fn elem_type(s: EmitView, t: TypeView) -> Option<TypeView> {
    match resolve_alias(s, t) {
        TypeView::Pointer(x) => Some(*x),
        TypeView::Array(x, _) => Some(*x),
        _ => None,
    }
}

/// Position of the first field named `m`.
pub open spec fn field_index(fs: Seq<FieldView>, m: Seq<char>) -> Option<nat>
    decreases fs.len(),
{
    if fs.len() == 0 {
        None
    } else if fs[0].name == m {
        Some(0)
    } else {
        match field_index(fs.drop_first(), m) {
            Some(i) => Some(i + 1),
            None => None,
        }
    }
}

/// The type of an lvalue-like expression, as far as the emitter tracks types: variables,
/// dereferences, index expressions and member accesses.
pub open spec fn expr_type(s: EmitView, c: EmitContextView, e: Expression) -> Option<TypeView>
    decreases e, 0nat,
{
    match e {
        Expression::Identifier { name, .. } => match resolve(s, c, name@) {
            Ok(l) => assoc_get(s.label_types, l),
            Err(_) => None,
        },
        Expression::Unary { op: UnaryOp::Dereference, expr, .. } => match expr_type(s, c, *expr) {
            Some(t) => elem_type(s, t),
            None => None,
        },
        Expression::Index { base, .. } => match expr_type(s, c, *base) {
            Some(t) => elem_type(s, t),
            None => None,
        },
        Expression::MemberAccess { base, member, through_pointer, .. } => match member_fields(s, c, *base, through_pointer) {
            Some(fs) => match field_index(fs, member@) {
                Some(i) => Some(fs[i as int].ty),
                None => None,
            },
            None => None,
        },
        _ => None,
    }
}

/// The fields of the struct that `base.m` (or `base->m`) reads from.
pub open spec fn member_fields(s: EmitView, c: EmitContextView, base: Expression, through_pointer: bool) -> Option<Seq<FieldView>>
    decreases base, 1nat,
{
    match expr_type(s, c, base) {
        Some(t) => if through_pointer {
            match elem_type(s, t) {
                Some(u) => struct_fields(s, u),
                None => None,
            }
        } else {
            struct_fields(s, t)
        },
        None => None,
    }
}

/// Words per element of the array or pointer indexed by `h` (an index expression).
pub open spec fn index_scale(s: EmitView, c: EmitContextView, h: Expression) -> nat {
    match h {
        Expression::Index { base, .. } => match expr_type(s, c, *base) {
            Some(t) => match elem_type(s, t) {
                Some(u) => type_size(s, u),
                None => 1,
            },
            None => 1,
        },
        _ => 1,
    }
}

/// Multiplies the index in the accumulator (already in `helper_index`) by the element size.
pub open spec fn scale_lines(k: nat) -> Seq<Seq<char>> {
    if k <= 1 {
        Seq::empty()
    } else {
        Seq::new((k - 1) as nat, |i: int| "Add helper_index"@).push("Store helper_index"@)
    }
}

/// Records the struct or the enumeration constants defined in a declared type (directly,
/// or under pointers and arrays).
pub open spec fn record_definitions(s: EmitView, t: TypeView) -> EmitView
    decreases t,
{
    match t {
        TypeView::Enum(_, es) => EmitView { enum_consts: s.enum_consts + es, ..s },
        TypeView::Struct(name, fields) => if fields.len() > 0 {
            EmitView { structs: s.structs.push((name, t)), ..s }
        } else {
            s
        },
        TypeView::Pointer(x) => record_definitions(s, *x),
        TypeView::Array(x, _) => record_definitions(s, *x),
        _ => s,
    }
}

// ---------------------------------------------------------------------------
// Operators
// ---------------------------------------------------------------------------

/// The lines of a comparison or logical operator, given the operand cells and the two
/// fresh label numbers.
pub open spec fn binop_lines(op: BinaryOp, lt: Seq<char>, rt: Seq<char>, a: usize, b: usize) -> Seq<Seq<char>> {
    let load_l = "Load "@ + lt;
    let subt_r = "Subt "@ + rt;
    match op {
        BinaryOp::Equal => {
            let f = "cmp_eq_"@ + num(a) + "_false"@;
            let e = "cmp_eq_"@ + num(b) + "_end"@;
            seq![load_l, subt_r, "Skipcond 400"@, "Jump "@ + f, "Load const_one"@, "Jump "@ + e,
                f + ", Load const_zero"@, e + ", Add const_zero"@]
        },
        BinaryOp::NotEqual => {
            let t = "cmp_ne_"@ + num(a) + "_true"@;
            let e = "cmp_ne_"@ + num(b) + "_end"@;
            seq![load_l, subt_r, "Skipcond 400"@, "Jump "@ + t, "Load const_zero"@, "Jump "@ + e,
                t + ", Load const_one"@, e + ", Add const_zero"@]
        },
        BinaryOp::Less => {
            let f = "cmp_lt_"@ + num(a) + "_false"@;
            let e = "cmp_lt_"@ + num(b) + "_end"@;
            seq![load_l, subt_r, "Skipcond 000"@, "Jump "@ + f, "Load const_one"@, "Jump "@ + e,
                f + ", Load const_zero"@, e + ", Add const_zero"@]
        },
        BinaryOp::LessEqual => {
            let t = "cmp_le_"@ + num(a) + "_true"@;
            let e = "cmp_le_"@ + num(b) + "_end"@;
            seq![load_l, subt_r, "Skipcond 800"@, "Jump "@ + t,
                "Load const_zero"@, "Jump "@ + e, t + ", Load const_one"@, e + ", Add const_zero"@]
        },
        BinaryOp::Greater => {
            let f = "cmp_gt_"@ + num(a) + "_false"@;
            let e = "cmp_gt_"@ + num(b) + "_end"@;
            seq![load_l, subt_r, "Skipcond 800"@, "Jump "@ + f, "Load const_one"@, "Jump "@ + e,
                f + ", Load const_zero"@, e + ", Add const_zero"@]
        },
        BinaryOp::GreaterEqual => {
            let t = "cmp_ge_"@ + num(a) + "_true"@;
            let e = "cmp_ge_"@ + num(b) + "_end"@;
            seq![load_l, subt_r, "Skipcond 000"@, "Jump "@ + t,
                "Load const_zero"@, "Jump "@ + e, t + ", Load const_one"@, e + ", Add const_zero"@]
        },
        BinaryOp::LogicalAnd => {
            let f = "logic_and_"@ + num(a) + "_false"@;
            let e = "logic_and_"@ + num(b) + "_end"@;
            seq![load_l, "Skipcond 0C00"@, "Jump "@ + f, "Load "@ + rt, "Skipcond 0C00"@, "Jump "@ + f,
                "Load const_one"@, "Jump "@ + e, f + ", Load const_zero"@, e + ", Add const_zero"@]
        },
        _ => {
            let t = "logic_or_"@ + num(a) + "_true"@;
            let e = "logic_or_"@ + num(b) + "_end"@;
            seq![load_l, "Skipcond 400"@, "Jump "@ + t, "Load "@ + rt, "Skipcond 400"@, "Jump "@ + t,
                "Load const_zero"@, "Jump "@ + e, t + ", Load const_one"@, e + ", Add const_zero"@]
        },
    }
}

pub open spec fn is_comparison_or_logic(op: BinaryOp) -> bool {
    op == BinaryOp::Equal || op == BinaryOp::NotEqual || op == BinaryOp::Less
        || op == BinaryOp::LessEqual || op == BinaryOp::Greater || op == BinaryOp::GreaterEqual
        || op == BinaryOp::LogicalAnd || op == BinaryOp::LogicalOr
}

/// The call of an arithmetic helper routine with the operands in `lt` and `rt`.
pub open spec fn helper_call_lines(helper: Seq<char>, lhs_cell: Seq<char>, lt: Seq<char>, rt: Seq<char>) -> Seq<Seq<char>> {
    seq!["Load "@ + lt, "Store "@ + helper + lhs_cell, "Load "@ + rt, "Store "@ + helper + "_rhs"@,
        "JnS "@ + helper, "Load "@ + helper + "_ret"@]
}

/// Applies a binary operator to the operands held in the cells `lt` and `rt` (the left one
/// is already in the accumulator).
pub open spec fn binop(s: EmitView, op: BinaryOp, lt: Seq<char>, rt: Seq<char>) -> Result<EmitView, EmitFault> {
    if op == BinaryOp::Add {
        Ok(with_instr(s, "Add "@ + rt))
    } else if op == BinaryOp::Subtract {
        Ok(with_instr(s, "Subt "@ + rt))
    } else if is_comparison_or_logic(op) {
        let s1 = ensure_one(ensure_zero(s));
        let a = s1.label_counter;
        let b = next_counter(a);
        Ok(with_instrs(bump(bump(s1)), binop_lines(op, lt, rt, a, b)))
    } else if op == BinaryOp::Multiply {
        Ok(with_instrs(EmitView { needs_mul_helper: true, ..s },
            helper_call_lines("helper_mul"@, "_lhs"@, lt, rt)))
    } else if op == BinaryOp::Modulo {
        Ok(with_instrs(EmitView { needs_mod_helper: true, ..s },
            helper_call_lines("helper_mod"@, "_lhs"@, lt, rt)))
    } else if op == BinaryOp::Divide {
        Ok(with_instrs(EmitView { needs_div_helper: true, ..s },
            helper_call_lines("helper_div"@, "_dividend"@, lt, rt)))
    } else {
        Err(EmitFault::UnsupportedOperator(op))
    }
}

// ---------------------------------------------------------------------------
// Expressions
// ---------------------------------------------------------------------------

/// Code that leaves the value of an expression in the accumulator.
pub open spec fn sp_expr(s: EmitView, c: EmitContextView, e: Expression) -> Result<EmitView, EmitFault>
    decreases e, 3nat,
{
    match e {
        Expression::Identifier { name, .. } => match resolve(s, c, name@) {
            Ok(l) => Ok(with_instr(s, "Load "@ + l)),
            Err(f) => match assoc_get(s.enum_consts, name@) {
                Some(v) => Ok(with_instr(ensure_int_const(s, v), "Load "@ + int_const_label(v))),
                None => Err(f),
            },
        },
        Expression::IntegerLiteral { value, .. } => Ok(with_instr(ensure_int_const(s, value), "Load "@ + int_const_label(value))),
        Expression::Unary { .. } => sp_unary(s, c, e),
        Expression::Binary { .. } => sp_binary(s, c, e),
        Expression::Assignment { .. } => sp_assignment(s, c, e),
        Expression::Call { .. } => sp_call(s, c, e),
        Expression::Index { .. } => match sp_index_address(s, c, e) {
            Ok(s1) => Ok(with_instr(s1, "LoadI helper_addr"@)),
            Err(f) => Err(f),
        },
        Expression::ArrayInitializer { .. } => Err(EmitFault::ArrayInitializer),
        Expression::MemberAccess { .. } => match sp_member_address(s, c, e) {
            Ok(s1) => Ok(with_instrs(s1, seq!["Store helper_addr"@, "LoadI helper_addr"@])),
            Err(f) => Err(f),
        },
        Expression::IncDec { .. } => sp_incdec(s, c, e),
    }
}

/// Code that leaves the address of the first word of a struct lvalue `x` in the accumulator:
/// a struct variable's cell holds that address; an element's address is computed; a
/// dereference gives it.
pub open spec fn sp_struct_address(s: EmitView, c: EmitContextView, x: Expression) -> Result<EmitView, EmitFault>
    decreases x, 2nat,
{
    match x {
        Expression::Identifier { name, .. } => match resolve(s, c, name@) {
            Ok(l) => Ok(with_instr(s, "Load "@ + l)),
            Err(f) => Err(f),
        },
        Expression::Index { .. } => match sp_index_address(s, c, x) {
            Ok(s1) => Ok(with_instr(s1, "Load helper_addr"@)),
            Err(f) => Err(f),
        },
        Expression::Unary { op: UnaryOp::Dereference, expr, .. } => sp_expr(s, c, *expr),
        _ => Err(EmitFault::MemberAccess),
    }
}

/// Code that leaves the address of the field that a member access `m` names in the
/// accumulator: the struct's address plus the field's position.
pub open spec fn sp_member_address(s: EmitView, c: EmitContextView, m: Expression) -> Result<EmitView, EmitFault>
    decreases m, 1nat,
{
    match m {
        Expression::MemberAccess { base, member, through_pointer, .. } => {
            let s0 = ensure_index_cells(s);
            match member_fields(s0, c, *base, through_pointer) {
                Some(fs) => match field_index(fs, member@) {
                    Some(i) => match (if through_pointer { sp_expr(s0, c, *base) } else { sp_struct_address(s0, c, *base) }) {
                        Ok(s1) => Ok(if i == 0 {
                            s1
                        } else {
                            let s2 = ensure_int_const(s1, i as i64);
                            with_instr(s2, "Add "@ + int_const_label(i as i64))
                        }),
                        Err(f) => Err(f),
                    },
                    None => Err(EmitFault::MemberAccess),
                },
                None => Err(EmitFault::MemberAccess),
            }
        },
        _ => Ok(s),
    }
}

/// The instruction that adds or subtracts one.
pub open spec fn step_line(decrement: bool) -> Seq<char> {
    if decrement {
        "Subt const_one"@
    } else {
        "Add const_one"@
    }
}

/// Increment or decrement of the variable cell `l`; the postfix form keeps the old value in
/// the cell `t`.
pub open spec fn incdec_lines(l: Seq<char>, t: Seq<char>, decrement: bool, prefix: bool) -> Seq<Seq<char>> {
    if prefix {
        seq!["Load "@ + l, step_line(decrement), "Store "@ + l]
    } else {
        seq!["Load "@ + l, "Store "@ + t, step_line(decrement), "Store "@ + l, "Load "@ + t]
    }
}

/// Increment or decrement of the cell whose address is in `helper_addr`.
pub open spec fn incdec_indirect(s: EmitView, decrement: bool, prefix: bool) -> EmitView {
    let s1 = ensure_one(s);
    if prefix {
        with_instrs(s1, seq!["LoadI helper_addr"@, step_line(decrement), "StoreI helper_addr"@])
    } else {
        let t = "tmp_inc_"@ + num(s1.label_counter);
        with_instrs(with_data(bump(s1), t + ", DEC 0"@), seq!["LoadI helper_addr"@, "Store "@ + t,
            step_line(decrement), "StoreI helper_addr"@, "Load "@ + t])
    }
}

/// Code for `++`/`--`: the target is updated by one; the accumulator ends with the new value
/// (prefix) or the old one, kept in a fresh `tmp_inc_` cell (postfix).
pub open spec fn sp_incdec(s: EmitView, c: EmitContextView, e: Expression) -> Result<EmitView, EmitFault>
    decreases e, 2nat,
{
    match e {
        Expression::IncDec { target, decrement, prefix, .. } => match *target {
            Expression::Identifier { name, .. } => match resolve(s, c, name@) {
                Ok(l) => {
                    let s1 = ensure_one(s);
                    if prefix {
                        Ok(with_instrs(s1, incdec_lines(l, Seq::empty(), decrement, true)))
                    } else {
                        let t = "tmp_inc_"@ + num(s1.label_counter);
                        Ok(with_instrs(with_data(bump(s1), t + ", DEC 0"@), incdec_lines(l, t, decrement, false)))
                    }
                },
                Err(f) => Err(f),
            },
            Expression::Index { .. } => match sp_index_address(s, c, *target) {
                Ok(s1) => Ok(incdec_indirect(s1, decrement, prefix)),
                Err(f) => Err(f),
            },
            Expression::Unary { op: UnaryOp::Dereference, expr, .. } => match sp_expr(ensure_index_cells(s), c, *expr) {
                Ok(s1) => Ok(incdec_indirect(with_instr(s1, "Store helper_addr"@), decrement, prefix)),
                Err(f) => Err(f),
            },
            Expression::MemberAccess { .. } => match sp_member_address(s, c, *target) {
                Ok(s1) => Ok(incdec_indirect(with_instr(s1, "Store helper_addr"@), decrement, prefix)),
                Err(f) => Err(f),
            },
            _ => Err(EmitFault::IncDecTarget),
        },
        _ => Ok(s),
    }
}

/// Code that leaves the address of the element `base[index]` in `helper_addr` (for an
/// index expression `h`).
pub open spec fn sp_index_address(s: EmitView, c: EmitContextView, h: Expression) -> Result<EmitView, EmitFault>
    decreases h, 1nat,
{
    match h {
        Expression::Index { base, index, .. } => match sp_expr(ensure_index_cells(s), c, *index) {
            Ok(s1) => match sp_expr(with_instrs(with_instr(s1, "Store helper_index"@), scale_lines(index_scale(s, c, h))), c, *base) {
                Ok(s2) => Ok(with_instrs(s2, seq!["Add helper_index"@, "Store helper_addr"@])),
                Err(f) => Err(f),
            },
            Err(f) => Err(f),
        },
        _ => Ok(s),
    }
}

/// Logical not of the accumulator, with the two fresh label numbers.
pub open spec fn not_lines(a: usize, b: usize) -> Seq<Seq<char>> {
    let t = "unary_not_"@ + num(a) + "_true"@;
    let en = "unary_not_"@ + num(b) + "_end"@;
    seq!["Skipcond 400"@, "Jump "@ + t, "Load const_one"@, "Jump "@ + en, t + ", Load const_zero"@, en + ", Add const_zero"@]
}

/// Negation of the accumulator through the scratch cell `t`.
pub open spec fn negate_lines(t: Seq<char>) -> Seq<Seq<char>> {
    seq!["Store "@ + t, "Load const_zero"@, "Subt "@ + t]
}

pub open spec fn sp_unary(s: EmitView, c: EmitContextView, e: Expression) -> Result<EmitView, EmitFault>
    decreases e, 2nat,
{
    match e {
        Expression::Unary { op, expr, .. } => match op {
            UnaryOp::LogicalNot => match sp_expr(s, c, *expr) {
                Ok(s1) => {
                    let s2 = ensure_one(ensure_zero(s1));
                    let a = s2.label_counter;
                    let b = next_counter(a);
                    Ok(with_instrs(bump(bump(s2)), not_lines(a, b)))
                },
                Err(f) => Err(f),
            },
            UnaryOp::AddressOf => sp_address_of(s, c, *expr),
            UnaryOp::Dereference => match sp_expr(ensure_index_cells(s), c, *expr) {
                Ok(s1) => Ok(with_instrs(s1, seq!["Store helper_addr"@, "LoadI helper_addr"@])),
                Err(f) => Err(f),
            },
            UnaryOp::Plus => sp_expr(s, c, *expr),
            UnaryOp::Minus => match sp_expr(s, c, *expr) {
                Ok(s1) => {
                    let s2 = ensure_zero(s1);
                    let t = "tmp_"@ + num(s2.label_counter);
                    Ok(with_instrs(with_data(bump(s2), t + ", DEC 0"@), negate_lines(t)))
                },
                Err(f) => Err(f),
            },
        },
        _ => Ok(s),
    }
}

/// Whether the variable stored under `l` is an array or a struct, whose cell holds the
/// address of its first word (so that address is the variable's address).
pub open spec fn label_is_aggregate(s: EmitView, l: Seq<char>) -> bool {
    match assoc_get(s.label_types, l) {
        Some(t) => resolve_alias(s, t) is Array || struct_fields(s, t) is Some,
        None => false,
    }
}

/// Code that leaves the address of an lvalue `x` in the accumulator.
pub open spec fn sp_address_of(s: EmitView, c: EmitContextView, x: Expression) -> Result<EmitView, EmitFault>
    decreases x, 2nat,
{
    match x {
        Expression::Identifier { name, .. } => match resolve(s, c, name@) {
            Ok(l) => if label_is_aggregate(s, l) {
                Ok(with_instr(s, "Load "@ + l))
            } else {
                let p = ensure_addr_const(s, l);
                Ok(with_instr(p.0, "Load "@ + p.1))
            },
            Err(f) => Err(f),
        },
        Expression::Index { .. } => match sp_index_address(s, c, x) {
            Ok(s1) => Ok(with_instr(s1, "Load helper_addr"@)),
            Err(f) => Err(f),
        },
        Expression::Unary { op: UnaryOp::Dereference, expr, .. } => sp_expr(s, c, *expr),
        Expression::MemberAccess { .. } => sp_member_address(s, c, x),
        _ => Err(EmitFault::AddressOfTarget),
    }
}

pub open spec fn sp_binary(s: EmitView, c: EmitContextView, e: Expression) -> Result<EmitView, EmitFault>
    decreases e, 2nat,
{
    match e {
        Expression::Binary { op, lhs, rhs, .. } => match sp_expr(s, c, *lhs) {
            Ok(s1) => {
                let lt = "tmp_"@ + num(s1.label_counter);
                let s2 = with_instr(with_data(bump(s1), lt + ", DEC 0"@), "Store "@ + lt);
                match sp_expr(s2, c, *rhs) {
                    Ok(s3) => {
                        let rt = "tmp_"@ + num(s3.label_counter);
                        let s4 = with_instrs(with_data(bump(s3), rt + ", DEC 0"@), seq!["Store "@ + rt, "Load "@ + lt]);
                        binop(s4, op, lt, rt)
                    },
                    Err(f) => Err(f),
                }
            },
            Err(f) => Err(f),
        },
        _ => Ok(s),
    }
}

/// Keeps the value being assigned in a fresh `tmp_` cell (with the scratch cells for indirect
/// stores in place) while the target's address is computed; the second part is that cell.
pub open spec fn spill_value(s: EmitView) -> (EmitView, Seq<char>) {
    let s1 = ensure_index_cells(s);
    let t = "tmp_"@ + num(s1.label_counter);
    (with_instr(with_data(bump(s1), t + ", DEC 0"@), "Store "@ + t), t)
}

pub open spec fn sp_assignment(s: EmitView, c: EmitContextView, e: Expression) -> Result<EmitView, EmitFault>
    decreases e, 2nat,
{
    match e {
        Expression::Assignment { target, value, .. } => match sp_expr(s, c, *value) {
            Ok(s1) => match *target {
                Expression::Identifier { name, .. } => match resolve(s1, c, name@) {
                    Ok(l) => Ok(with_instr(s1, "Store "@ + l)),
                    Err(f) => Err(f),
                },
                Expression::Index { .. } => match sp_index_address(spill_value(s1).0, c, *target) {
                    Ok(s2) => Ok(with_instrs(s2, seq!["Load "@ + spill_value(s1).1, "StoreI helper_addr"@])),
                    Err(f) => Err(f),
                },
                Expression::Unary { op: UnaryOp::Dereference, expr, .. } => match sp_expr(spill_value(s1).0, c, *expr) {
                    Ok(s2) => Ok(with_instrs(s2, seq!["Store helper_addr"@, "Load "@ + spill_value(s1).1,
                        "StoreI helper_addr"@])),
                    Err(f) => Err(f),
                },
                Expression::MemberAccess { .. } => match sp_member_address(spill_value(s1).0, c, *target) {
                    Ok(s2) => Ok(with_instrs(s2, seq!["Store helper_addr"@, "Load "@ + spill_value(s1).1,
                        "StoreI helper_addr"@])),
                    Err(f) => Err(f),
                },
                _ => Err(EmitFault::AssignmentTarget),
            },
            Err(f) => Err(f),
        },
        _ => Ok(s),
    }
}

pub open spec fn sp_call(s: EmitView, c: EmitContextView, e: Expression) -> Result<EmitView, EmitFault>
    decreases e, 2nat,
{
    match e {
        Expression::Call { callee, args, .. } => match *callee {
            Expression::Identifier { name, .. } => match assoc_get(s.functions, name@) {
                Some(count) => match sp_args(s, c, args@) {
                    Ok(p) => Ok(with_instrs(p.0, param_stores(p.1, name@, count)
                        + seq!["JnS "@ + fn_entry(name@), "Load "@ + fn_ret(name@)])),
                    Err(f) => Err(f),
                },
                None => Err(EmitFault::MissingPlannedFunction(name@)),
            },
            _ => Err(EmitFault::CallTarget),
        },
        _ => Ok(s),
    }
}

/// Evaluates the arguments in order, each into a fresh `tmp_` cell; the second part lists
/// those cells, one per argument.
pub open spec fn sp_args(s: EmitView, c: EmitContextView, args: Seq<Expression>) -> Result<(EmitView, Seq<Seq<char>>), EmitFault>
    decreases args, 0nat,
{
    if args.len() == 0 {
        Ok((s, Seq::empty()))
    } else {
        match sp_args(s, c, args.drop_last()) {
            Ok(p) => match sp_expr(p.0, c, args.last()) {
                Ok(s2) => {
                    let t = "tmp_"@ + num(s2.label_counter);
                    Ok((with_instr(with_data(bump(s2), t + ", DEC 0"@), "Store "@ + t), p.1.push(t)))
                },
                Err(f) => Err(f),
            },
            Err(f) => Err(f),
        }
    }
}

/// Once every argument is evaluated: copies the value of argument `i` (held in `ts[i]`)
/// into the callee's parameter cell `i`, for each argument that has one.
pub open spec fn param_stores(ts: Seq<Seq<char>>, fname: Seq<char>, count: usize) -> Seq<Seq<char>>
    decreases ts.len(),
{
    if ts.len() == 0 {
        Seq::empty()
    } else {
        let i = ts.len() - 1;
        param_stores(ts.drop_last(), fname, count) + if i < count {
            seq!["Load "@ + ts.last(), "Store "@ + param_label(fname, i)]
        } else {
            Seq::empty()
        }
    }
}

// ---------------------------------------------------------------------------
// Storage
// ---------------------------------------------------------------------------

/// Values of the constant expressions at the front of a list of initializer elements.
pub open spec fn leading_constants(es: Seq<Expression>) -> Seq<int>
    decreases es.len(),
{
    if es.len() == 0 {
        Seq::empty()
    } else {
        match constant_value(es[0]) {
            Some(v) => seq![v] + leading_constants(es.skip(1)),
            None => Seq::empty(),
        }
    }
}

/// Initial values of an array's elements: the leading constants of a brace list.
pub open spec fn array_initial_values(init: Option<Expression>) -> Seq<int> {
    match init {
        Some(Expression::ArrayInitializer { elements, .. }) => leading_constants(elements@),
        _ => Seq::empty(),
    }
}

/// Initial value of a scalar cell: the initializer's value when it is constant, else 0.
pub open spec fn scalar_initial_value(init: Option<Expression>) -> int {
    match init {
        Some(e) => match constant_value(e) {
            Some(v) => v,
            None => 0,
        },
        None => 0,
    }
}

/// Number of cells of an array: its size when that is a positive `usize`, else one.
pub open spec fn array_cell_count(size: Option<crate::ast::ConstExpr>) -> nat {
    match size {
        Some(ce) => if 0 < ce.value && ce.value <= usize::MAX {
            ce.value as nat
        } else {
            1
        },
        None => 1,
    }
}

/// The data line of array element `i`.
pub open spec fn element_line(label: Seq<char>, vals: Seq<int>, i: int) -> Seq<char> {
    label + "_elem_"@ + dec_nat(i as nat) + ", DEC "@ + dec_int(if i < vals.len() { vals[i] } else { 0 })
}

/// The number of cells of an array of `n` elements of `k` words (at most `usize::MAX`).
pub open spec fn array_words(n: nat, k: nat) -> nat {
    if n * k <= usize::MAX {
        n * k
    } else {
        usize::MAX as nat
    }
}

/// The data line of field `i` of a struct variable.
pub open spec fn field_line(label: Seq<char>, i: int) -> Seq<char> {
    label + "_field_"@ + dec_nat(i as nat) + ", DEC 0"@
}

/// Data cells for a variable: for an array, a pointer cell and the elements' words (only an
/// array of one-word elements takes initial values); for a struct, a pointer cell and one
/// cell per field; otherwise one cell holding the constant initializer's value (or 0).
pub open spec fn sp_storage(s: EmitView, label: Seq<char>, ty: TypeView, init: Option<Expression>) -> EmitView {
    match resolve_alias(s, ty) {
        TypeView::Array(el, size) => {
            let k = type_size(s, *el);
            let vals = if k == 1 { array_initial_values(init) } else { Seq::empty() };
            with_datas(
                with_data(s, label + ", ADR "@ + label + "_elem_0"@),
                Seq::new(array_words(array_cell_count(size), k), |i: int| element_line(label, vals, i)),
            )
        },
        _ => match struct_fields(s, ty) {
            Some(fs) => with_datas(
                with_data(s, label + ", ADR "@ + label + "_field_0"@),
                Seq::new(fs.len(), |i: int| field_line(label, i)),
            ),
            None => with_data(s, label + ", DEC "@ + dec_int(scalar_initial_value(init))),
        },
    }
}

// ---------------------------------------------------------------------------
// Inline assembly
// ---------------------------------------------------------------------------

pub open spec fn strip_cr(line: Seq<char>) -> Seq<char> {
    if line.len() > 0 && line.last() == '\r' {
        line.drop_last()
    } else {
        line
    }
}

/// Splitting at `\n`: the finished lines (without a `\r` before the `\n`) and the text
/// after the last `\n`.
pub open spec fn lines_acc(s: Seq<char>) -> (Seq<Seq<char>>, Seq<char>)
    decreases s.len(),
{
    if s.len() == 0 {
        (Seq::empty(), Seq::empty())
    } else {
        let p = lines_acc(s.drop_last());
        if s.last() == '\n' {
            (p.0.push(strip_cr(p.1)), Seq::empty())
        } else {
            (p.0, p.1.push(s.last()))
        }
    }
}

/// The lines of a text as `str::lines` gives them.
pub open spec fn text_lines(s: Seq<char>) -> Seq<Seq<char>> {
    let p = lines_acc(s);
    if p.1.len() > 0 {
        p.0.push(p.1)
    } else {
        p.0
    }
}

pub open spec fn is_ident_start(c: char) -> bool {
    c == '_' || ('a' <= c && c <= 'z') || ('A' <= c && c <= 'Z')
}

pub open spec fn is_ident_continue(c: char) -> bool {
    is_ident_start(c) || ('0' <= c && c <= '9')
}

/// End of the identifier characters of `line` from position `i`.
pub open spec fn ident_end(line: Seq<char>, i: int) -> int
    decreases line.len() - i,
{
    if 0 <= i < line.len() && is_ident_continue(line[i]) {
        ident_end(line, i + 1)
    } else {
        i
    }
}

pub proof fn lemma_ident_end(line: Seq<char>, i: int)
    requires
        0 <= i <= line.len(),
    ensures
        i <= ident_end(line, i) <= line.len(),
    decreases line.len() - i,
{
    if i < line.len() && is_ident_continue(line[i]) {
        lemma_ident_end(line, i + 1);
    }
}

/// `r` with `prefix` put in front of its success value.
pub open spec fn prepend(prefix: Seq<char>, r: Result<Seq<char>, EmitFault>) -> Result<Seq<char>, EmitFault> {
    match r {
        Ok(x) => Ok(prefix + x),
        Err(f) => Err(f),
    }
}

/// An inline assembly line with each `%name` replaced by the storage label of `name`.
pub open spec fn render_line(s: EmitView, c: EmitContextView, line: Seq<char>) -> Result<Seq<char>, EmitFault>
    decreases line.len(),
{
    if line.len() == 0 {
        Ok(Seq::empty())
    } else if line[0] == '%' && line.len() > 1 && is_ident_start(line[1]) {
        let end = ident_end(line, 2);
        proof {
            lemma_ident_end(line, 2);
        }
        match resolve(s, c, line.subrange(1, end)) {
            Ok(l) => prepend(l, render_line(s, c, line.skip(end))),
            Err(f) => Err(f),
        }
    } else {
        prepend(seq![line[0]], render_line(s, c, line.skip(1)))
    }
}

/// Characters that `char::is_whitespace` accepts.
pub open spec fn is_white(c: char) -> bool {
    c == ' ' || ('\t' <= c && c <= '\r') || c == '\u{85}' || c == '\u{A0}' || c == '\u{1680}'
        || ('\u{2000}' <= c && c <= '\u{200A}') || c == '\u{2028}' || c == '\u{2029}'
        || c == '\u{202F}' || c == '\u{205F}' || c == '\u{3000}'
}

pub open spec fn all_white(s: Seq<char>) -> bool {
    forall|i: int| 0 <= i < s.len() ==> is_white(#[trigger] s[i])
}

/// Rendered lines, in order; lines that are blank after rendering are dropped.
pub open spec fn sp_asm_lines(s: EmitView, c: EmitContextView, lines: Seq<Seq<char>>) -> Result<EmitView, EmitFault>
    decreases lines.len(),
{
    if lines.len() == 0 {
        Ok(s)
    } else {
        match sp_asm_lines(s, c, lines.drop_last()) {
            Ok(s1) => match render_line(s1, c, lines.last()) {
                Ok(r) => Ok(if all_white(r) { s1 } else { with_instr(s1, r) }),
                Err(f) => Err(f),
            },
            Err(f) => Err(f),
        }
    }
}

/// Each instruction text of an inline assembly statement, split into lines.
pub open spec fn sp_asm(s: EmitView, c: EmitContextView, texts: Seq<Seq<char>>) -> Result<EmitView, EmitFault>
    decreases texts.len(),
{
    if texts.len() == 0 {
        Ok(s)
    } else {
        match sp_asm(s, c, texts.drop_last()) {
            Ok(s1) => sp_asm_lines(s1, c, text_lines(texts.last())),
            Err(f) => Err(f),
        }
    }
}

// ---------------------------------------------------------------------------
// Statements
// ---------------------------------------------------------------------------

/// Binds `name` in the innermost scope.
pub open spec fn bind_local(c: EmitContextView, name: Seq<char>, label: Seq<char>) -> EmitContextView {
    if c.scopes.len() == 0 {
        c
    } else {
        EmitContextView {
            scopes: c.scopes.update(c.scopes.len() - 1, c.scopes.last().push((name, label))),
            ..c
        }
    }
}

pub open spec fn push_scope(c: EmitContextView) -> EmitContextView {
    EmitContextView { scopes: c.scopes.push(Seq::empty()), ..c }
}

pub open spec fn pop_scope(c: EmitContextView) -> EmitContextView {
    if c.scopes.len() == 0 {
        c
    } else {
        EmitContextView { scopes: c.scopes.drop_last(), ..c }
    }
}

pub open spec fn local_label(c: EmitContextView, id: usize, name: Seq<char>) -> Seq<char> {
    "v_"@ + c.function_name + "_"@ + num(id) + "_"@ + name
}

/// A local declarator: its cells, its binding, then code for a scalar initializer.
pub open spec fn sp_local(s: EmitView, c: EmitContextView, d: Declarator) -> Result<(EmitView, EmitContextView), EmitFault> {
    let label = local_label(c, s.label_counter, d.name@);
    let s0 = bump(s);
    let s1 = sp_storage(EmitView { label_types: s0.label_types.push((label, d.ty@)), ..s0 }, label, d.ty@, d.initializer);
    let c1 = bind_local(c, d.name@, label);
    match d.initializer {
        Some(init) => if init is ArrayInitializer {
            Ok((s1, c1))
        } else {
            match sp_expr(s1, c1, init) {
                Ok(s2) => Ok((with_instr(s2, "Store "@ + label), c1)),
                Err(f) => Err(f),
            }
        },
        None => Ok((s1, c1)),
    }
}

pub open spec fn sp_locals(s: EmitView, c: EmitContextView, ds: Seq<Declarator>) -> Result<(EmitView, EmitContextView), EmitFault>
    decreases ds.len(),
{
    if ds.len() == 0 {
        Ok((s, c))
    } else {
        match sp_locals(s, c, ds.drop_last()) {
            Ok(p) => sp_local(p.0, p.1, ds.last()),
            Err(f) => Err(f),
        }
    }
}

pub open spec fn sp_opt_expr(s: EmitView, c: EmitContextView, e: Option<Expression>) -> Result<EmitView, EmitFault> {
    match e {
        Some(x) => sp_expr(s, c, x),
        None => Ok(s),
    }
}

pub open spec fn sp_stmt(s: EmitView, c: EmitContextView, st: Statement) -> Result<(EmitView, EmitContextView), EmitFault>
    decreases st, 1nat,
{
    match st {
        Statement::Block(b) => match sp_items(s, push_scope(c), b.items@) {
            Ok(p) => Ok((p.0, pop_scope(p.1))),
            Err(f) => Err(f),
        },
        Statement::If { .. } => sp_if(s, c, st),
        Statement::Return(e) => {
            let s1 = match e {
                Some(x) => sp_expr(s, c, x),
                None => Ok(with_instr(s, "Clear"@)),
            };
            match s1 {
                Ok(s2) => Ok((with_instr(s2, "Jump "@ + fn_end(c.function_name)), c)),
                Err(f) => Err(f),
            }
        },
        Statement::Expression(e) => match sp_opt_expr(s, c, e) {
            Ok(s1) => Ok((s1, c)),
            Err(f) => Err(f),
        },
        Statement::InlineAsm(texts) => match sp_asm(s, c, texts@.map_values(|t: String| t@)) {
            Ok(s1) => Ok((s1, c)),
            Err(f) => Err(f),
        },
        Statement::While { .. } => sp_while(s, c, st),
        Statement::For { .. } => sp_for(s, c, st),
    }
}

pub open spec fn sp_if(s: EmitView, c: EmitContextView, st: Statement) -> Result<(EmitView, EmitContextView), EmitFault>
    decreases st, 0nat,
{
    match st {
        Statement::If { condition, then_branch, else_branch } => {
            let s0 = ensure_zero(s);
            let a = s0.label_counter;
            let else_l = "if_"@ + num(a) + "_else"@;
            let end_l = "if_"@ + num(a) + "_end"@;
            match sp_expr(bump(s0), c, condition) {
                Ok(s1) => match sp_stmt(with_instrs(s1, seq!["Skipcond 0C00"@, "Jump "@ + else_l]), c, *then_branch) {
                    Ok(p) => {
                        let s2 = with_instrs(p.0, seq!["Jump "@ + end_l, else_l + ", Clear"@]);
                        match else_branch {
                            Some(eb) => match sp_stmt(s2, p.1, *eb) {
                                Ok(q) => Ok((with_instr(q.0, end_l + ", Add const_zero"@), q.1)),
                                Err(f) => Err(f),
                            },
                            None => Ok((with_instr(s2, end_l + ", Add const_zero"@), p.1)),
                        }
                    },
                    Err(f) => Err(f),
                },
                Err(f) => Err(f),
            }
        },
        _ => Ok((s, c)),
    }
}

pub open spec fn sp_while(s: EmitView, c: EmitContextView, st: Statement) -> Result<(EmitView, EmitContextView), EmitFault>
    decreases st, 0nat,
{
    match st {
        Statement::While { condition, body } => {
            let a = s.label_counter;
            let cond_l = "while_cond_"@ + num(a);
            let end_l = "while_end_"@ + num(a);
            match sp_expr(with_instrs(bump(s), seq!["Jump "@ + cond_l, cond_l + ", Clear"@]), c, condition) {
                Ok(s1) => match sp_stmt(with_instrs(s1, seq!["Skipcond 0C00"@, "Jump "@ + end_l]), c, *body) {
                    Ok(p) => Ok((with_instrs(p.0, seq!["Jump "@ + cond_l, end_l + ", Clear"@]), p.1)),
                    Err(f) => Err(f),
                },
                Err(f) => Err(f),
            }
        },
        _ => Ok((s, c)),
    }
}

/// The code of a `for` loop's condition test (none when it has no condition).
pub open spec fn sp_for_test(s: EmitView, c: EmitContextView, condition: Option<Expression>, end_l: Seq<char>) -> Result<EmitView, EmitFault> {
    match condition {
        Some(cond) => match sp_expr(s, c, cond) {
            Ok(x) => Ok(with_instrs(x, seq!["Skipcond 0C00"@, "Jump "@ + end_l])),
            Err(f) => Err(f),
        },
        None => Ok(s),
    }
}

pub open spec fn sp_for(s: EmitView, c: EmitContextView, st: Statement) -> Result<(EmitView, EmitContextView), EmitFault>
    decreases st, 0nat,
{
    match st {
        Statement::For { init, condition, update, body } => {
            let a = s.label_counter;
            let cond_l = "for_cond_"@ + num(a);
            let end_l = "for_end_"@ + num(a);
            match sp_opt_expr(bump(s), c, init) {
                Ok(s1) => match sp_for_test(with_instrs(s1, seq!["Jump "@ + cond_l, cond_l + ", Clear"@]), c, condition, end_l) {
                    Ok(s4) => match sp_stmt(s4, c, *body) {
                        Ok(p) => match sp_opt_expr(p.0, p.1, update) {
                            Ok(s5) => Ok((with_instrs(s5, seq!["Jump "@ + cond_l, end_l + ", Clear"@]), p.1)),
                            Err(f) => Err(f),
                        },
                        Err(f) => Err(f),
                    },
                    Err(f) => Err(f),
                },
                Err(f) => Err(f),
            }
        },
        _ => Ok((s, c)),
    }
}

pub open spec fn sp_items(s: EmitView, c: EmitContextView, items: Seq<BlockItem>) -> Result<(EmitView, EmitContextView), EmitFault>
    decreases items, 0nat,
{
    if items.len() == 0 {
        Ok((s, c))
    } else {
        match sp_items(s, c, items.drop_last()) {
            Ok(p) => sp_item(p.0, p.1, items.last()),
            Err(f) => Err(f),
        }
    }
}

pub open spec fn sp_item(s: EmitView, c: EmitContextView, item: BlockItem) -> Result<(EmitView, EmitContextView), EmitFault>
    decreases item, 0nat,
{
    match item {
        BlockItem::Declaration(d) => sp_locals(s, c, d.declarators@),
        BlockItem::Statement(st) => sp_stmt(s, c, st),
    }
}

// ---------------------------------------------------------------------------
// Functions and the translation unit
// ---------------------------------------------------------------------------

/// Whether the parameter list is the single unnamed `void` of `f(void)`.
pub open spec fn is_void_parameter_list(ps: Seq<Parameter>) -> bool {
    ps.len() == 1 && ps[0].name is None && ps[0].ty matches Type::Builtin(BuiltinType::Void)
}

/// Number of parameter cells a function gets: none for `f(void)`.
pub open spec fn parameter_count(ps: Seq<Parameter>) -> nat {
    if is_void_parameter_list(ps) {
        0
    } else {
        ps.len()
    }
}

/// Records the names that a `typedef` declaration introduces (and a struct it defines).
pub open spec fn plan_typedefs(s: EmitView, ds: Seq<Declarator>) -> EmitView
    decreases ds.len(),
{
    if ds.len() == 0 {
        s
    } else {
        let s1 = plan_typedefs(s, ds.drop_last());
        let s2 = record_definitions(s1, ds.last().ty@);
        EmitView { typedefs: s2.typedefs.push((ds.last().name@, ds.last().ty@)), ..s2 }
    }
}

/// The declared types of the parameter cells of a function.
pub open spec fn parameter_types(ps: Seq<Parameter>, count: usize, fname: Seq<char>) -> Seq<(Seq<char>, TypeView)>
    decreases ps.len(),
{
    if ps.len() == 0 {
        Seq::empty()
    } else {
        let prev = parameter_types(ps.drop_last(), count, fname);
        let i = ps.len() - 1;
        if ps.last().name is Some && i < count {
            prev.push((param_label(fname, i), ps.last().ty@))
        } else {
            prev
        }
    }
}

/// Records the globals of one declaration.
pub open spec fn plan_globals(s: EmitView, ds: Seq<Declarator>) -> EmitView
    decreases ds.len(),
{
    if ds.len() == 0 {
        s
    } else {
        let s1 = plan_globals(s, ds.drop_last());
        let n = ds.last().name@;
        let s2 = record_definitions(s1, ds.last().ty@);
        EmitView { globals: s2.globals.push((n, "g_"@ + n)), label_types: s2.label_types.push(("g_"@ + n, ds.last().ty@)), ..s2 }
    }
}

/// Records every global and function of the unit, in order.
pub open spec fn plan_symbols(s: EmitView, items: Seq<ExternalDeclaration>) -> EmitView
    decreases items.len(),
{
    if items.len() == 0 {
        s
    } else {
        let s1 = plan_symbols(s, items.drop_last());
        match items.last() {
            ExternalDeclaration::GlobalDeclaration(d) => if d.storage_class == Some(crate::ast::StorageClass::Typedef) {
                plan_typedefs(s1, d.declarators@)
            } else {
                plan_globals(s1, d.declarators@)
            },
            ExternalDeclaration::Function(f) => EmitView {
                functions: s1.functions.push((f.name@, parameter_count(f.params@) as usize)),
                ..s1
            },
            ExternalDeclaration::TypeDeclaration(t) => record_definitions(s1, t@),
        }
    }
}

/// The function scope: each named parameter that has a cell is bound to it.
pub open spec fn parameter_scope(ps: Seq<Parameter>, count: usize, fname: Seq<char>) -> Seq<(Seq<char>, Seq<char>)>
    decreases ps.len(),
{
    if ps.len() == 0 {
        Seq::empty()
    } else {
        let prev = parameter_scope(ps.drop_last(), count, fname);
        let i = ps.len() - 1;
        match ps.last().name {
            Some(n) => if i < count {
                prev.push((n@, param_label(fname, i)))
            } else {
                prev
            },
            None => prev,
        }
    }
}

/// Code and cells of one function.
pub open spec fn sp_function(s: EmitView, f: FunctionDeclaration) -> Result<EmitView, EmitFault> {
    let name = f.name@;
    match assoc_get(s.functions, name) {
        Some(count) => {
            let s0 = EmitView { label_types: s.label_types + parameter_types(f.params@, count, name), ..s };
            let s1 = with_instrs(s0, seq![fn_entry(name) + ", HEX 000"@, "fn_"@ + name + "_body, Clear"@]);
            let c = EmitContextView { function_name: name, scopes: seq![parameter_scope(f.params@, count, name)] };
            match sp_items(s1, c, f.body.items@) {
                Ok(p) => Ok(with_datas(
                    with_instrs(p.0, seq![fn_end(name) + ", Store "@ + fn_ret(name), "JumpI "@ + fn_entry(name)]),
                    seq![fn_ret(name) + ", DEC 0"@] + Seq::new(count as nat, |i: int| param_label(name, i) + ", DEC 0"@),
                )),
                Err(f) => Err(f),
            }
        },
        None => Err(EmitFault::MissingFunctionLabels(name)),
    }
}

/// Every function of the unit, in order.
pub open spec fn sp_functions(s: EmitView, items: Seq<ExternalDeclaration>) -> Result<EmitView, EmitFault>
    decreases items.len(),
{
    if items.len() == 0 {
        Ok(s)
    } else {
        match sp_functions(s, items.drop_last()) {
            Ok(s1) => match items.last() {
                ExternalDeclaration::Function(f) => sp_function(s1, f),
                _ => Ok(s1),
            },
            Err(f) => Err(f),
        }
    }
}

/// Cells of the globals of one declaration.
pub open spec fn global_storage(s: EmitView, ds: Seq<Declarator>) -> EmitView
    decreases ds.len(),
{
    if ds.len() == 0 {
        s
    } else {
        let s1 = global_storage(s, ds.drop_last());
        let d = ds.last();
        match assoc_get(s1.globals, d.name@) {
            Some(label) => sp_storage(s1, label, d.ty@, d.initializer),
            None => s1,
        }
    }
}

/// Cells of every global of the unit, in order.
pub open spec fn globals_storage(s: EmitView, items: Seq<ExternalDeclaration>) -> EmitView
    decreases items.len(),
{
    if items.len() == 0 {
        s
    } else {
        let s1 = globals_storage(s, items.drop_last());
        match items.last() {
            ExternalDeclaration::GlobalDeclaration(d) => global_storage(s1, d.declarators@),
            _ => s1,
        }
    }
}

/// Whether a global's initial value is computed when the program starts: a scalar global
/// whose initializer is not a constant (its cell starts at 0).
pub open spec fn runtime_initializer(s: EmitView, ty: TypeView, init: Option<Expression>) -> bool {
    match init {
        Some(e) => !(e is ArrayInitializer) && constant_value(e) is None && !(resolve_alias(s, ty) is Array)
            && struct_fields(s, ty) is None,
        None => false,
    }
}

/// The context in which global initializers are computed: no local scopes.
pub open spec fn init_context() -> EmitContextView {
    EmitContextView { function_name: "main"@, scopes: Seq::empty() }
}

/// Start-up code of one global: compute its initializer and store it, when its value is
/// not known before the program runs.
pub open spec fn sp_global_init(s: EmitView, d: Declarator) -> Result<EmitView, EmitFault> {
    match assoc_get(s.globals, d.name@) {
        Some(label) => if runtime_initializer(s, d.ty@, d.initializer) {
            match sp_expr(s, init_context(), d.initializer->0) {
                Ok(s1) => Ok(with_instr(s1, "Store "@ + label)),
                Err(f) => Err(f),
            }
        } else {
            Ok(s)
        },
        None => Ok(s),
    }
}

/// Start-up code of the globals of one declaration, in order.
pub open spec fn sp_global_inits(s: EmitView, ds: Seq<Declarator>) -> Result<EmitView, EmitFault>
    decreases ds.len(),
{
    if ds.len() == 0 {
        Ok(s)
    } else {
        match sp_global_inits(s, ds.drop_last()) {
            Ok(s1) => sp_global_init(s1, ds.last()),
            Err(f) => Err(f),
        }
    }
}

/// Start-up code of every global of the unit, in order.
pub open spec fn sp_unit_inits(s: EmitView, items: Seq<ExternalDeclaration>) -> Result<EmitView, EmitFault>
    decreases items.len(),
{
    if items.len() == 0 {
        Ok(s)
    } else {
        match sp_unit_inits(s, items.drop_last()) {
            Ok(s1) => match items.last() {
                ExternalDeclaration::GlobalDeclaration(d) => sp_global_inits(s1, d.declarators@),
                _ => Ok(s1),
            },
            Err(f) => Err(f),
        }
    }
}

/// The program entry label.
pub open spec fn start_lines() -> Seq<Seq<char>> {
    seq!["_start, Clear"@]
}

/// After the start-up code: call `main`, print its result, stop.
pub open spec fn entry_call_lines() -> Seq<Seq<char>> {
    seq!["JnS fn_main"@, "Load fn_main_ret"@, "Output"@, "Halt"@]
}

pub open spec fn mul_helper_lines() -> Seq<Seq<char>> {
    seq!["helper_mul, HEX 000"@, "helper_mul_body, Clear"@, "Store helper_mul_acc"@,
        "helper_mul_loop, Load helper_mul_rhs"@, "Skipcond 400"@, "Jump helper_mul_continue"@,
        "Jump helper_mul_done"@, "helper_mul_continue, Load helper_mul_acc"@, "Add helper_mul_lhs"@,
        "Store helper_mul_acc"@, "Load helper_mul_rhs"@, "Subt const_one"@, "Store helper_mul_rhs"@,
        "Jump helper_mul_loop"@, "helper_mul_done, Load helper_mul_acc"@, "Store helper_mul_ret"@,
        "JumpI helper_mul"@]
}

pub open spec fn mod_helper_lines() -> Seq<Seq<char>> {
    seq!["helper_mod, HEX 000"@, "helper_mod_body, Load helper_mod_lhs"@, "Store helper_mod_work"@,
        "helper_mod_loop, Load helper_mod_work"@, "Subt helper_mod_rhs"@, "Skipcond 000"@,
        "Jump helper_mod_store"@, "Jump helper_mod_done"@, "helper_mod_store, Store helper_mod_work"@,
        "Jump helper_mod_loop"@, "helper_mod_done, Load helper_mod_work"@, "Store helper_mod_ret"@,
        "JumpI helper_mod"@]
}

pub open spec fn div_helper_lines() -> Seq<Seq<char>> {
    seq!["helper_div, HEX 000"@, "helper_div_body, Clear"@, "Store helper_div_quotient"@,
        "helper_div_loop, Load helper_div_rhs"@, "Skipcond 0C00"@, "Jump helper_div_done"@,
        "Load helper_div_dividend"@, "Subt helper_div_rhs"@, "Skipcond 000"@,
        "Jump helper_div_continue"@, "Jump helper_div_done"@,
        "helper_div_continue, Store helper_div_dividend"@, "Load helper_div_quotient"@,
        "Add const_one"@, "Store helper_div_quotient"@, "Jump helper_div_loop"@,
        "helper_div_done, Load helper_div_quotient"@, "Store helper_div_ret"@, "JumpI helper_div"@]
}

/// A helper routine: added unless a line of the code already starts with `entry`; its
/// cells are added unless a data line already starts with `cell`.
pub open spec fn add_helper(s: EmitView, entry: Seq<char>, code: Seq<Seq<char>>, cell: Seq<char>, cells: Seq<Seq<char>>) -> EmitView {
    if crate::codegen::emitter::any_line_starts_with(s.instructions, entry) {
        s
    } else {
        let s1 = with_instrs(s, code);
        if crate::codegen::emitter::any_line_starts_with(s1.data, cell) {
            s1
        } else {
            with_datas(s1, cells)
        }
    }
}

pub open spec fn mul_helper(s: EmitView) -> EmitView {
    add_helper(ensure_one(ensure_zero(s)), "helper_mul,"@, mul_helper_lines(), "helper_mul_lhs,"@,
        seq!["helper_mul_lhs, DEC 0"@, "helper_mul_rhs, DEC 0"@, "helper_mul_acc, DEC 0"@, "helper_mul_ret, DEC 0"@])
}

pub open spec fn mod_helper(s: EmitView) -> EmitView {
    add_helper(ensure_zero(s), "helper_mod,"@, mod_helper_lines(), "helper_mod_lhs,"@,
        seq!["helper_mod_lhs, DEC 0"@, "helper_mod_rhs, DEC 0"@, "helper_mod_work, DEC 0"@, "helper_mod_ret, DEC 0"@])
}

pub open spec fn div_helper(s: EmitView) -> EmitView {
    add_helper(ensure_one(ensure_zero(s)), "helper_div,"@, div_helper_lines(), "helper_div_dividend,"@,
        seq!["helper_div_dividend, DEC 0"@, "helper_div_rhs, DEC 0"@, "helper_div_quotient, DEC 0"@,
            "helper_div_ret, DEC 0"@])
}

/// The helper routines that the code calls.
pub open spec fn with_helpers(s: EmitView) -> EmitView {
    let s1 = if s.needs_mul_helper { mul_helper(s) } else { s };
    let s2 = if s1.needs_mod_helper { mod_helper(s1) } else { s1 };
    if s2.needs_div_helper { div_helper(s2) } else { s2 }
}

/// Lines joined with `\n` between them.
pub open spec fn join_lines(lines: Seq<Seq<char>>) -> Seq<char>
    decreases lines.len(),
{
    if lines.len() == 0 {
        Seq::empty()
    } else if lines.len() == 1 {
        lines[0]
    } else {
        join_lines(lines.drop_last()) + seq!['\n'] + lines.last()
    }
}

/// All lines of the program text: a header, the code, a marker, the data.
pub open spec fn program_lines(s: EmitView) -> Seq<Seq<char>> {
    let t = with_helpers(s);
    seq!["/ marie-c-compiler output"@] + t.instructions + seq!["/ data"@] + t.data
}

/// Emission of a whole unit from state `s`: plan its symbols, emit the entry code (the
/// start-up code of the globals, then the call of `main`), every function, then the cells
/// of its globals.
pub open spec fn sp_unit(s: EmitView, items: Seq<ExternalDeclaration>) -> Result<EmitView, EmitFault> {
    let s1 = with_instrs(plan_symbols(s, items), start_lines());
    match sp_unit_inits(s1, items) {
        Ok(s2) => match sp_functions(with_instrs(s2, entry_call_lines()), items) {
            Ok(s3) => Ok(globals_storage(s3, items)),
            Err(f) => Err(f),
        },
        Err(f) => Err(f),
    }
}

/// The assembly text for a translation unit, or why there is none.
pub open spec fn emit_program(unit: TranslationUnit) -> Result<Seq<char>, EmitFault> {
    match sp_unit(empty_state(), unit.top_level_items@) {
        Ok(s) => Ok(join_lines(program_lines(s))),
        Err(f) => Err(f),
    }
}

} // verus!
