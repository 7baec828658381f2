//! Properties of emission that hold of every program: the emitter only appends to the code
//! and data it has produced, and a program that target validation accepts never fails on
//! an operator.
use vstd::prelude::*;
use crate::ast::{BinaryOp, BlockItem, Declarator, Expression, ExternalDeclaration, FunctionDeclaration, Statement,
    StorageClass, TranslationUnit, UnaryOp};
use crate::codegen::marie_unsupported_ops;
use crate::text::dec_int;
use crate::codegen::model::{binop, bump, ensure_int_const, int_const_label, emit_program, EmitContextView, EmitFault, EmitView, global_storage,
    globals_storage, join_lines, lemma_ident_end, num, plan_symbols, program_lines, push_scope, render_line,
    sp_address_of, sp_args, sp_asm, sp_asm_lines, sp_assignment, sp_binary, sp_call, sp_expr, sp_for,
    sp_for_test, sp_function, sp_functions, sp_if, sp_incdec, sp_index_address, sp_item, sp_items, sp_local, sp_locals,
    sp_opt_expr, sp_stmt, sp_unary, sp_struct_address, sp_member_address, sp_unit, sp_while, start_lines, entry_call_lines, init_context, sp_global_init, sp_global_inits, sp_unit_inits, text_lines, with_helpers, with_instrs};
use crate::codegen::validation::{bad_expr, bad_exprs, bad_inits, bad_item, bad_items, bad_opt, bad_stmt, bad_top,
    validation_result};

verus! {

/// `t` keeps the code and the data of `s` as its first lines.
pub open spec fn extends(s: EmitView, t: EmitView) -> bool {
    &&& s.instructions.len() <= t.instructions.len()
    &&& forall|i: int| 0 <= i < s.instructions.len() ==> #[trigger] t.instructions[i] == s.instructions[i]
    &&& s.data.len() <= t.data.len()
    &&& forall|i: int| 0 <= i < s.data.len() ==> #[trigger] t.data[i] == s.data[i]
}

/// A successful step from `s` keeps what `s` holds.
pub open spec fn grows(s: EmitView, r: Result<EmitView, EmitFault>) -> bool {
    match r {
        Ok(t) => extends(s, t),
        Err(_) => true,
    }
}

/// The same for a step that also changes the function context.
pub open spec fn grows_in(s: EmitView, r: Result<(EmitView, EmitContextView), EmitFault>) -> bool {
    match r {
        Ok(p) => extends(s, p.0),
        Err(_) => true,
    }
}

/// Whether the state asks for the helper routine of `op` (multiplication, modulo, division).
pub open spec fn helper_flag(s: EmitView, op: BinaryOp) -> bool {
    if op == BinaryOp::Multiply {
        s.needs_mul_helper
    } else if op == BinaryOp::Modulo {
        s.needs_mod_helper
    } else if op == BinaryOp::Divide {
        s.needs_div_helper
    } else {
        false
    }
}

/// A successful step leaves the request for the helper of `op` as it was.
pub open spec fn keeps_flag(s: EmitView, r: Result<EmitView, EmitFault>, op: BinaryOp) -> bool {
    match r {
        Ok(t) => helper_flag(t, op) == helper_flag(s, op),
        Err(_) => true,
    }
}

pub open spec fn keeps_flag_in(s: EmitView, r: Result<(EmitView, EmitContextView), EmitFault>, op: BinaryOp) -> bool {
    match r {
        Ok(p) => helper_flag(p.0, op) == helper_flag(s, op),
        Err(_) => true,
    }
}

/// The step failed on an operator the target lacks.
pub open spec fn operator_fault<T>(r: Result<T, EmitFault>) -> bool {
    r matches Err(EmitFault::UnsupportedOperator(_))
}

/// Every operator that the emitter has no code for is one that MARIE validation refuses.
proof fn lemma_unsupported_listed(op: BinaryOp)
    ensures
        !(op == BinaryOp::Add || op == BinaryOp::Subtract || op == BinaryOp::Multiply || op == BinaryOp::Modulo
            || op == BinaryOp::Divide || op == BinaryOp::Equal || op == BinaryOp::NotEqual || op == BinaryOp::Less
            || op == BinaryOp::LessEqual || op == BinaryOp::Greater || op == BinaryOp::GreaterEqual
            || op == BinaryOp::LogicalAnd || op == BinaryOp::LogicalOr) ==> marie_unsupported_ops().contains(op),
{
    let m = marie_unsupported_ops();
    match op {
        BinaryOp::ShiftLeft => assert(m[0] == op),
        BinaryOp::ShiftRight => assert(m[1] == op),
        BinaryOp::BitwiseAnd => assert(m[2] == op),
        BinaryOp::BitwiseOr => assert(m[3] == op),
        BinaryOp::BitwiseXor => assert(m[4] == op),
        _ => {},
    }
}

proof fn lemma_binop(s: EmitView, op: BinaryOp, lt: Seq<char>, rt: Seq<char>, hop: BinaryOp)
    ensures
        !seq![hop].contains(op) ==> keeps_flag(s, binop(s, op, lt, rt), hop),
        grows(s, binop(s, op, lt, rt)),
        !marie_unsupported_ops().contains(op) ==> !operator_fault(binop(s, op, lt, rt)),
{
    lemma_unsupported_listed(op);
    if op == hop {
        assert(seq![hop][0] == op);
    }
}

proof fn lemma_expr(s: EmitView, c: EmitContextView, e: Expression, hop: BinaryOp)
    ensures
        bad_expr(e, seq![hop]) is None ==> keeps_flag(s, sp_expr(s, c, e), hop),
        grows(s, sp_expr(s, c, e)),
        bad_expr(e, marie_unsupported_ops()) is None ==> !operator_fault(sp_expr(s, c, e)),
    decreases e, 3nat,
{
    match e {
        Expression::Unary { .. } => lemma_unary(s, c, e, hop),
        Expression::Binary { .. } => lemma_binary(s, c, e, hop),
        Expression::Assignment { .. } => lemma_assignment(s, c, e, hop),
        Expression::Call { .. } => lemma_call(s, c, e, hop),
        Expression::Index { .. } => lemma_index_address(s, c, e, hop),
        Expression::IncDec { .. } => lemma_incdec(s, c, e, hop),
        Expression::MemberAccess { .. } => lemma_member_address(s, c, e, hop),
        _ => {},
    }
}

proof fn lemma_struct_address(s: EmitView, c: EmitContextView, x: Expression, hop: BinaryOp)
    ensures
        bad_expr(x, seq![hop]) is None ==> keeps_flag(s, sp_struct_address(s, c, x), hop),
        grows(s, sp_struct_address(s, c, x)),
        bad_expr(x, marie_unsupported_ops()) is None ==> !operator_fault(sp_struct_address(s, c, x)),
    decreases x, 2nat,
{
    match x {
        Expression::Index { .. } => lemma_index_address(s, c, x, hop),
        Expression::Unary { op: UnaryOp::Dereference, expr, .. } => lemma_expr(s, c, *expr, hop),
        _ => {},
    }
}

proof fn lemma_member_address(s: EmitView, c: EmitContextView, m: Expression, hop: BinaryOp)
    ensures
        bad_expr(m, seq![hop]) is None ==> keeps_flag(s, sp_member_address(s, c, m), hop),
        grows(s, sp_member_address(s, c, m)),
        bad_expr(m, marie_unsupported_ops()) is None ==> !operator_fault(sp_member_address(s, c, m)),
    decreases m, 1nat,
{
    match m {
        Expression::MemberAccess { base, through_pointer, .. } => {
            let s0 = crate::codegen::model::ensure_index_cells(s);
            if through_pointer {
                lemma_expr(s0, c, *base, hop);
            } else {
                lemma_struct_address(s0, c, *base, hop);
            }
        },
        _ => {},
    }
}

proof fn lemma_incdec(s: EmitView, c: EmitContextView, e: Expression, hop: BinaryOp)
    ensures
        bad_expr(e, seq![hop]) is None ==> keeps_flag(s, sp_incdec(s, c, e), hop),
        grows(s, sp_incdec(s, c, e)),
        bad_expr(e, marie_unsupported_ops()) is None ==> !operator_fault(sp_incdec(s, c, e)),
    decreases e, 2nat,
{
    match e {
        Expression::IncDec { target, .. } => match *target {
            Expression::Index { .. } => lemma_index_address(s, c, *target, hop),
            Expression::Unary { op: UnaryOp::Dereference, expr, .. } => lemma_expr(
                crate::codegen::model::ensure_index_cells(s), c, *expr, hop),
            Expression::MemberAccess { .. } => lemma_member_address(s, c, *target, hop),
            _ => {},
        },
        _ => {},
    }
}

proof fn lemma_index_address(s: EmitView, c: EmitContextView, h: Expression, hop: BinaryOp)
    ensures
        bad_expr(h, seq![hop]) is None ==> keeps_flag(s, sp_index_address(s, c, h), hop),
        grows(s, sp_index_address(s, c, h)),
        bad_expr(h, marie_unsupported_ops()) is None ==> !operator_fault(sp_index_address(s, c, h)),
    decreases h, 1nat,
{
    match h {
        Expression::Index { base, index, .. } => {
            let s0 = crate::codegen::model::ensure_index_cells(s);
            lemma_expr(s0, c, *index, hop);
            match sp_expr(s0, c, *index) {
                Ok(s1) => {
                    let s1b = with_instrs(crate::codegen::model::with_instr(s1, "Store helper_index"@),
                        crate::codegen::model::scale_lines(crate::codegen::model::index_scale(s, c, h)));
                    lemma_expr(s1b, c, *base, hop);
                },
                Err(_) => {},
            }
        },
        _ => {},
    }
}

proof fn lemma_unary(s: EmitView, c: EmitContextView, e: Expression, hop: BinaryOp)
    ensures
        bad_expr(e, seq![hop]) is None ==> keeps_flag(s, sp_unary(s, c, e), hop),
        grows(s, sp_unary(s, c, e)),
        bad_expr(e, marie_unsupported_ops()) is None ==> !operator_fault(sp_unary(s, c, e)),
    decreases e, 2nat,
{
    match e {
        Expression::Unary { op, expr, .. } => match op {
            UnaryOp::AddressOf => lemma_address_of(s, c, *expr, hop),
            UnaryOp::Dereference => lemma_expr(crate::codegen::model::ensure_index_cells(s), c, *expr, hop),
            _ => lemma_expr(s, c, *expr, hop),
        },
        _ => {},
    }
}

proof fn lemma_address_of(s: EmitView, c: EmitContextView, x: Expression, hop: BinaryOp)
    ensures
        bad_expr(x, seq![hop]) is None ==> keeps_flag(s, sp_address_of(s, c, x), hop),
        grows(s, sp_address_of(s, c, x)),
        bad_expr(x, marie_unsupported_ops()) is None ==> !operator_fault(sp_address_of(s, c, x)),
    decreases x, 2nat,
{
    match x {
        Expression::Index { .. } => lemma_index_address(s, c, x, hop),
        Expression::Unary { op: UnaryOp::Dereference, expr, .. } => lemma_expr(s, c, *expr, hop),
        Expression::MemberAccess { .. } => lemma_member_address(s, c, x, hop),
        _ => {},
    }
}

proof fn lemma_binary(s: EmitView, c: EmitContextView, e: Expression, hop: BinaryOp)
    ensures
        bad_expr(e, seq![hop]) is None ==> keeps_flag(s, sp_binary(s, c, e), hop),
        grows(s, sp_binary(s, c, e)),
        bad_expr(e, marie_unsupported_ops()) is None ==> !operator_fault(sp_binary(s, c, e)),
    decreases e, 2nat,
{
    match e {
        Expression::Binary { op, lhs, rhs, .. } => {
            lemma_expr(s, c, *lhs, hop);
            match sp_expr(s, c, *lhs) {
                Ok(s1) => {
                    let lt = "tmp_"@ + crate::codegen::model::num(s1.label_counter);
                    let s2 = crate::codegen::model::with_instr(
                        crate::codegen::model::with_data(crate::codegen::model::bump(s1), lt + ", DEC 0"@),
                        "Store "@ + lt,
                    );
                    lemma_expr(s2, c, *rhs, hop);
                    match sp_expr(s2, c, *rhs) {
                        Ok(s3) => {
                            let rt = "tmp_"@ + crate::codegen::model::num(s3.label_counter);
                            let s4 = crate::codegen::model::with_instrs(
                                crate::codegen::model::with_data(crate::codegen::model::bump(s3), rt + ", DEC 0"@),
                                seq!["Store "@ + rt, "Load "@ + lt],
                            );
                            lemma_binop(s4, op, lt, rt, hop);
                        },
                        Err(_) => {},
                    }
                },
                Err(_) => {},
            }
        },
        _ => {},
    }
}

proof fn lemma_assignment(s: EmitView, c: EmitContextView, e: Expression, hop: BinaryOp)
    ensures
        bad_expr(e, seq![hop]) is None ==> keeps_flag(s, sp_assignment(s, c, e), hop),
        grows(s, sp_assignment(s, c, e)),
        bad_expr(e, marie_unsupported_ops()) is None ==> !operator_fault(sp_assignment(s, c, e)),
    decreases e, 2nat,
{
    match e {
        Expression::Assignment { target, value, .. } => {
            lemma_expr(s, c, *value, hop);
            match sp_expr(s, c, *value) {
                Ok(s1) => {
                    let s1b = crate::codegen::model::spill_value(s1).0;
                    match *target {
                        Expression::Index { .. } => lemma_index_address(s1b, c, *target, hop),
                        Expression::Unary { op: UnaryOp::Dereference, expr, .. } => lemma_expr(s1b, c, *expr, hop),
                        Expression::MemberAccess { .. } => lemma_member_address(s1b, c, *target, hop),
                        _ => {},
                    }
                },
                Err(_) => {},
            }
        },
        _ => {},
    }
}

proof fn lemma_call(s: EmitView, c: EmitContextView, e: Expression, hop: BinaryOp)
    ensures
        bad_expr(e, seq![hop]) is None ==> keeps_flag(s, sp_call(s, c, e), hop),
        grows(s, sp_call(s, c, e)),
        bad_expr(e, marie_unsupported_ops()) is None ==> !operator_fault(sp_call(s, c, e)),
    decreases e, 2nat,
{
    match e {
        Expression::Call { callee, args, .. } => match *callee {
            Expression::Identifier { name, .. } => match crate::symbols::assoc_get(s.functions, name@) {
                Some(count) => lemma_args(s, c, args@, hop),
                None => {},
            },
            _ => {},
        },
        _ => {},
    }
}

/// The state after evaluating call arguments.
pub open spec fn args_state(r: Result<(EmitView, Seq<Seq<char>>), EmitFault>) -> Result<EmitView, EmitFault> {
    match r {
        Ok(p) => Ok(p.0),
        Err(f) => Err(f),
    }
}

proof fn lemma_args(s: EmitView, c: EmitContextView, args: Seq<Expression>, hop: BinaryOp)
    ensures
        bad_exprs(args, seq![hop]) is None ==> keeps_flag(s, args_state(sp_args(s, c, args)), hop),
        grows(s, args_state(sp_args(s, c, args))),
        bad_exprs(args, marie_unsupported_ops()) is None ==> !operator_fault(sp_args(s, c, args)),
    decreases args, 0nat,
{
    if args.len() > 0 {
        lemma_args(s, c, args.drop_last(), hop);
        match sp_args(s, c, args.drop_last()) {
            Ok(p) => lemma_expr(p.0, c, args.last(), hop),
            Err(_) => {},
        }
    }
}

proof fn lemma_opt_expr(s: EmitView, c: EmitContextView, e: Option<Expression>, hop: BinaryOp)
    ensures
        bad_opt(e, seq![hop]) is None ==> keeps_flag(s, sp_opt_expr(s, c, e), hop),
        grows(s, sp_opt_expr(s, c, e)),
        bad_opt(e, marie_unsupported_ops()) is None ==> !operator_fault(sp_opt_expr(s, c, e)),
{
    match e {
        Some(x) => lemma_expr(s, c, x, hop),
        None => {},
    }
}

/// Rendering an inline assembly line can only fail on a name.
proof fn lemma_render(s: EmitView, c: EmitContextView, line: Seq<char>)
    ensures
        !operator_fault(render_line(s, c, line)),
    decreases line.len(),
{
    if line.len() > 0 {
        if line[0] == '%' && line.len() > 1 && crate::codegen::model::is_ident_start(line[1]) {
            let end = crate::codegen::model::ident_end(line, 2);
            lemma_ident_end(line, 2);
            lemma_render(s, c, line.skip(end));
        } else {
            lemma_render(s, c, line.skip(1));
        }
    }
}

proof fn lemma_asm_lines(s: EmitView, c: EmitContextView, lines: Seq<Seq<char>>, hop: BinaryOp)
    ensures
        keeps_flag(s, sp_asm_lines(s, c, lines), hop),
        grows(s, sp_asm_lines(s, c, lines)),
        !operator_fault(sp_asm_lines(s, c, lines)),
    decreases lines.len(),
{
    if lines.len() > 0 {
        lemma_asm_lines(s, c, lines.drop_last(), hop);
        match sp_asm_lines(s, c, lines.drop_last()) {
            Ok(s1) => lemma_render(s1, c, lines.last()),
            Err(_) => {},
        }
    }
}

proof fn lemma_asm(s: EmitView, c: EmitContextView, texts: Seq<Seq<char>>, hop: BinaryOp)
    ensures
        keeps_flag(s, sp_asm(s, c, texts), hop),
        grows(s, sp_asm(s, c, texts)),
        !operator_fault(sp_asm(s, c, texts)),
    decreases texts.len(),
{
    if texts.len() > 0 {
        lemma_asm(s, c, texts.drop_last(), hop);
        match sp_asm(s, c, texts.drop_last()) {
            Ok(s1) => lemma_asm_lines(s1, c, text_lines(texts.last()), hop),
            Err(_) => {},
        }
    }
}

proof fn lemma_local(s: EmitView, c: EmitContextView, d: Declarator, hop: BinaryOp)
    ensures
        bad_opt(d.initializer, seq![hop]) is None ==> keeps_flag_in(s, sp_local(s, c, d), hop),
        grows_in(s, sp_local(s, c, d)),
        bad_opt(d.initializer, marie_unsupported_ops()) is None ==> !operator_fault(sp_local(s, c, d)),
{
    let label = crate::codegen::model::local_label(c, s.label_counter, d.name@);
    let s0 = bump(s);
    let s1 = crate::codegen::model::sp_storage(EmitView { label_types: s0.label_types.push((label, d.ty@)), ..s0 }, label, d.ty@, d.initializer);
    let c1 = crate::codegen::model::bind_local(c, d.name@, label);
    match d.initializer {
        Some(init) => lemma_expr(s1, c1, init, hop),
        None => {},
    }
}

proof fn lemma_locals(s: EmitView, c: EmitContextView, ds: Seq<Declarator>, hop: BinaryOp)
    ensures
        bad_inits(ds, seq![hop]) is None ==> keeps_flag_in(s, sp_locals(s, c, ds), hop),
        grows_in(s, sp_locals(s, c, ds)),
        bad_inits(ds, marie_unsupported_ops()) is None ==> !operator_fault(sp_locals(s, c, ds)),
    decreases ds.len(),
{
    if ds.len() > 0 {
        lemma_locals(s, c, ds.drop_last(), hop);
        match sp_locals(s, c, ds.drop_last()) {
            Ok(p) => lemma_local(p.0, p.1, ds.last(), hop),
            Err(_) => {},
        }
    }
}

proof fn lemma_stmt(s: EmitView, c: EmitContextView, st: Statement, hop: BinaryOp)
    ensures
        bad_stmt(st, seq![hop]) is None ==> keeps_flag_in(s, sp_stmt(s, c, st), hop),
        grows_in(s, sp_stmt(s, c, st)),
        bad_stmt(st, marie_unsupported_ops()) is None ==> !operator_fault(sp_stmt(s, c, st)),
    decreases st, 1nat,
{
    match st {
        Statement::Block(b) => lemma_items(s, push_scope(c), b.items@, hop),
        Statement::If { .. } => lemma_if(s, c, st, hop),
        Statement::While { .. } => lemma_while(s, c, st, hop),
        Statement::For { .. } => lemma_for(s, c, st, hop),
        Statement::Return(e) => lemma_opt_expr(s, c, e, hop),
        Statement::Expression(e) => lemma_opt_expr(s, c, e, hop),
        Statement::InlineAsm(texts) => lemma_asm(s, c, texts@.map_values(|t: String| t@), hop),
    }
}

proof fn lemma_if(s: EmitView, c: EmitContextView, st: Statement, hop: BinaryOp)
    ensures
        bad_stmt(st, seq![hop]) is None ==> keeps_flag_in(s, sp_if(s, c, st), hop),
        grows_in(s, sp_if(s, c, st)),
        bad_stmt(st, marie_unsupported_ops()) is None ==> !operator_fault(sp_if(s, c, st)),
    decreases st, 0nat,
{
    match st {
        Statement::If { condition, then_branch, else_branch } => {
            let s0 = crate::codegen::model::ensure_zero(s);
            let a = s0.label_counter;
            let else_l = "if_"@ + num(a) + "_else"@;
            let end_l = "if_"@ + num(a) + "_end"@;
            lemma_expr(bump(s0), c, condition, hop);
            match sp_expr(bump(s0), c, condition) {
                Ok(s1) => {
                    let s1b = with_instrs(s1, seq!["Skipcond 0C00"@, "Jump "@ + else_l]);
                    lemma_stmt(s1b, c, *then_branch, hop);
                    match sp_stmt(s1b, c, *then_branch) {
                        Ok(p) => {
                            let s2 = with_instrs(p.0, seq!["Jump "@ + end_l, else_l + ", Clear"@]);
                            match else_branch {
                                Some(eb) => lemma_stmt(s2, p.1, *eb, hop),
                                None => {},
                            }
                        },
                        Err(_) => {},
                    }
                },
                Err(_) => {},
            }
        },
        _ => {},
    }
}

proof fn lemma_while(s: EmitView, c: EmitContextView, st: Statement, hop: BinaryOp)
    ensures
        bad_stmt(st, seq![hop]) is None ==> keeps_flag_in(s, sp_while(s, c, st), hop),
        grows_in(s, sp_while(s, c, st)),
        bad_stmt(st, marie_unsupported_ops()) is None ==> !operator_fault(sp_while(s, c, st)),
    decreases st, 0nat,
{
    match st {
        Statement::While { condition, body } => {
            let a = s.label_counter;
            let cond_l = "while_cond_"@ + num(a);
            let end_l = "while_end_"@ + num(a);
            let s0 = with_instrs(bump(s), seq!["Jump "@ + cond_l, cond_l + ", Clear"@]);
            lemma_expr(s0, c, condition, hop);
            match sp_expr(s0, c, condition) {
                Ok(s1) => lemma_stmt(with_instrs(s1, seq!["Skipcond 0C00"@, "Jump "@ + end_l]), c, *body, hop),
                Err(_) => {},
            }
        },
        _ => {},
    }
}

proof fn lemma_for(s: EmitView, c: EmitContextView, st: Statement, hop: BinaryOp)
    ensures
        bad_stmt(st, seq![hop]) is None ==> keeps_flag_in(s, sp_for(s, c, st), hop),
        grows_in(s, sp_for(s, c, st)),
        bad_stmt(st, marie_unsupported_ops()) is None ==> !operator_fault(sp_for(s, c, st)),
    decreases st, 0nat,
{
    match st {
        Statement::For { init, condition, update, body } => {
            let a = s.label_counter;
            let cond_l = "for_cond_"@ + num(a);
            let end_l = "for_end_"@ + num(a);
            lemma_opt_expr(bump(s), c, init, hop);
            match sp_opt_expr(bump(s), c, init) {
                Ok(s1) => {
                    let s1b = with_instrs(s1, seq!["Jump "@ + cond_l, cond_l + ", Clear"@]);
                    lemma_opt_expr(s1b, c, condition, hop);
                    match sp_for_test(s1b, c, condition, end_l) {
                        Ok(s4) => {
                            lemma_stmt(s4, c, *body, hop);
                            match sp_stmt(s4, c, *body) {
                                Ok(p) => lemma_opt_expr(p.0, p.1, update, hop),
                                Err(_) => {},
                            }
                        },
                        Err(_) => {},
                    }
                },
                Err(_) => {},
            }
        },
        _ => {},
    }
}

proof fn lemma_items(s: EmitView, c: EmitContextView, items: Seq<BlockItem>, hop: BinaryOp)
    ensures
        bad_items(items, seq![hop]) is None ==> keeps_flag_in(s, sp_items(s, c, items), hop),
        grows_in(s, sp_items(s, c, items)),
        bad_items(items, marie_unsupported_ops()) is None ==> !operator_fault(sp_items(s, c, items)),
    decreases items, 0nat,
{
    if items.len() > 0 {
        lemma_items(s, c, items.drop_last(), hop);
        match sp_items(s, c, items.drop_last()) {
            Ok(p) => lemma_item(p.0, p.1, items.last(), hop),
            Err(_) => {},
        }
    }
}

proof fn lemma_item(s: EmitView, c: EmitContextView, item: BlockItem, hop: BinaryOp)
    ensures
        bad_item(item, seq![hop]) is None ==> keeps_flag_in(s, sp_item(s, c, item), hop),
        grows_in(s, sp_item(s, c, item)),
        bad_item(item, marie_unsupported_ops()) is None ==> !operator_fault(sp_item(s, c, item)),
    decreases item, 0nat,
{
    match item {
        BlockItem::Declaration(d) => lemma_locals(s, c, d.declarators@, hop),
        BlockItem::Statement(st) => lemma_stmt(s, c, st, hop),
    }
}

proof fn lemma_function(s: EmitView, f: FunctionDeclaration, hop: BinaryOp)
    ensures
        bad_items(f.body.items@, seq![hop]) is None ==> keeps_flag(s, sp_function(s, f), hop),
        grows(s, sp_function(s, f)),
        bad_items(f.body.items@, marie_unsupported_ops()) is None ==> !operator_fault(sp_function(s, f)),
{
    let name = f.name@;
    match crate::symbols::assoc_get(s.functions, name) {
        Some(count) => {
            let s0 = EmitView { label_types: s.label_types + crate::codegen::model::parameter_types(f.params@, count, name), ..s };
            let s1 = with_instrs(s0, seq![crate::codegen::model::fn_entry(name) + ", HEX 000"@,
                "fn_"@ + name + "_body, Clear"@]);
            let c = EmitContextView {
                function_name: name,
                scopes: seq![crate::codegen::model::parameter_scope(f.params@, count, name)],
            };
            lemma_items(s1, c, f.body.items@, hop);
        },
        None => {},
    }
}

proof fn lemma_functions(s: EmitView, items: Seq<ExternalDeclaration>, storage: Seq<StorageClass>, hop: BinaryOp)
    ensures
        bad_top(items, seq![hop], storage) is None ==> keeps_flag(s, sp_functions(s, items), hop),
        grows(s, sp_functions(s, items)),
        bad_top(items, marie_unsupported_ops(), storage) is None ==> !operator_fault(sp_functions(s, items)),
    decreases items.len(),
{
    if items.len() > 0 {
        lemma_functions(s, items.drop_last(), storage, hop);
        match sp_functions(s, items.drop_last()) {
            Ok(s1) => match items.last() {
                ExternalDeclaration::Function(f) => lemma_function(s1, f, hop),
                _ => {},
            },
            Err(_) => {},
        }
    }
}

proof fn lemma_global_init(s: EmitView, d: Declarator, hop: BinaryOp)
    ensures
        bad_opt(d.initializer, seq![hop]) is None ==> keeps_flag(s, sp_global_init(s, d), hop),
        grows(s, sp_global_init(s, d)),
        bad_opt(d.initializer, marie_unsupported_ops()) is None ==> !operator_fault(sp_global_init(s, d)),
{
    match d.initializer {
        Some(init) => lemma_expr(s, init_context(), init, hop),
        None => {},
    }
}

proof fn lemma_global_inits(s: EmitView, ds: Seq<Declarator>, hop: BinaryOp)
    ensures
        bad_inits(ds, seq![hop]) is None ==> keeps_flag(s, sp_global_inits(s, ds), hop),
        grows(s, sp_global_inits(s, ds)),
        bad_inits(ds, marie_unsupported_ops()) is None ==> !operator_fault(sp_global_inits(s, ds)),
    decreases ds.len(),
{
    if ds.len() > 0 {
        lemma_global_inits(s, ds.drop_last(), hop);
        match sp_global_inits(s, ds.drop_last()) {
            Ok(s1) => lemma_global_init(s1, ds.last(), hop),
            Err(_) => {},
        }
    }
}

proof fn lemma_unit_inits(s: EmitView, items: Seq<ExternalDeclaration>, storage: Seq<StorageClass>, hop: BinaryOp)
    ensures
        bad_top(items, seq![hop], storage) is None ==> keeps_flag(s, sp_unit_inits(s, items), hop),
        grows(s, sp_unit_inits(s, items)),
        bad_top(items, marie_unsupported_ops(), storage) is None ==> !operator_fault(sp_unit_inits(s, items)),
    decreases items.len(),
{
    if items.len() > 0 {
        lemma_unit_inits(s, items.drop_last(), storage, hop);
        match sp_unit_inits(s, items.drop_last()) {
            Ok(s1) => match items.last() {
                ExternalDeclaration::GlobalDeclaration(d) => lemma_global_inits(s1, d.declarators@, hop),
                _ => {},
            },
            Err(_) => {},
        }
    }
}

proof fn lemma_global_storage(s: EmitView, ds: Seq<Declarator>, hop: BinaryOp)
    ensures
        helper_flag(global_storage(s, ds), hop) == helper_flag(s, hop),
        extends(s, global_storage(s, ds)),
    decreases ds.len(),
{
    if ds.len() > 0 {
        lemma_global_storage(s, ds.drop_last(), hop);
    }
}

proof fn lemma_globals_storage(s: EmitView, items: Seq<ExternalDeclaration>, hop: BinaryOp)
    ensures
        helper_flag(globals_storage(s, items), hop) == helper_flag(s, hop),
        extends(s, globals_storage(s, items)),
    decreases items.len(),
{
    if items.len() > 0 {
        lemma_globals_storage(s, items.drop_last(), hop);
        match items.last() {
            ExternalDeclaration::GlobalDeclaration(d) => lemma_global_storage(
                globals_storage(s, items.drop_last()), d.declarators@, hop),
            _ => {},
        }
    }
}

proof fn lemma_with_helpers(s: EmitView)
    ensures
        extends(s, with_helpers(s)),
{
}

/// Recording definitions changes nothing but the struct and enumeration tables.
proof fn lemma_record_definitions(s: EmitView, t: crate::ast::TypeView)
    ensures
        crate::codegen::model::record_definitions(s, t) == (EmitView {
            structs: crate::codegen::model::record_definitions(s, t).structs,
            enum_consts: crate::codegen::model::record_definitions(s, t).enum_consts,
            ..s
        }),
    decreases t,
{
    match t {
        crate::ast::TypeView::Pointer(x) => lemma_record_definitions(s, *x),
        crate::ast::TypeView::Array(x, _) => lemma_record_definitions(s, *x),
        _ => {},
    }
}

proof fn lemma_plan_globals_keeps_code(s: EmitView, ds: Seq<Declarator>, hop: BinaryOp)
    ensures
        helper_flag(crate::codegen::model::plan_globals(s, ds), hop) == helper_flag(s, hop),
        crate::codegen::model::plan_globals(s, ds).instructions == s.instructions,
        helper_flag(crate::codegen::model::plan_typedefs(s, ds), hop) == helper_flag(s, hop),
        crate::codegen::model::plan_typedefs(s, ds).instructions == s.instructions,
    decreases ds.len(),
{
    if ds.len() > 0 {
        lemma_plan_globals_keeps_code(s, ds.drop_last(), hop);
        lemma_record_definitions(crate::codegen::model::plan_globals(s, ds.drop_last()), ds.last().ty@);
        lemma_record_definitions(crate::codegen::model::plan_typedefs(s, ds.drop_last()), ds.last().ty@);
    }
}

/// Planning records symbols and emits no code.
proof fn lemma_plan_keeps_code(s: EmitView, items: Seq<ExternalDeclaration>, hop: BinaryOp)
    ensures
        helper_flag(plan_symbols(s, items), hop) == helper_flag(s, hop),
        plan_symbols(s, items).instructions == s.instructions,
    decreases items.len(),
{
    if items.len() > 0 {
        lemma_plan_keeps_code(s, items.drop_last(), hop);
        match items.last() {
            ExternalDeclaration::GlobalDeclaration(d) => lemma_plan_globals_keeps_code(
                plan_symbols(s, items.drop_last()), d.declarators@, hop),
            ExternalDeclaration::TypeDeclaration(t) => lemma_record_definitions(plan_symbols(s, items.drop_last()), t@),
            _ => {},
        }
    }
}

/// Lines joined with a line break between two nonempty runs of lines.
proof fn lemma_join_append(a: Seq<Seq<char>>, b: Seq<Seq<char>>)
    requires
        a.len() > 0,
        b.len() > 0,
    ensures
        join_lines(a + b) == join_lines(a) + seq!['\n'] + join_lines(b),
    decreases b.len(),
{
    if b.len() == 1 {
        assert((a + b).drop_last() =~= a);
    } else {
        lemma_join_append(a, b.drop_last());
        assert((a + b).drop_last() =~= a + b.drop_last());
    }
}

/// The first lines of every program: the header, then the entry label.
pub open spec fn program_prologue() -> Seq<Seq<char>> {
    seq!["/ marie-c-compiler output"@] + start_lines()
}

/// Emission only appends: whatever a unit is, the code of a successful emission begins
/// with the header and the entry label (the start-up code of the globals and the call of
/// `main` follow it), so the program text begins with those lines.
pub proof fn law_entry_code_comes_first(unit: TranslationUnit)
    ensures
        emit_program(unit) matches Ok(text) ==> join_lines(program_prologue()).is_prefix_of(text),
{
    let items = unit.top_level_items@;
    let s0 = with_instrs(plan_symbols(crate::codegen::model::empty_state(), items), start_lines());
    lemma_plan_keeps_code(crate::codegen::model::empty_state(), items, BinaryOp::Add);
    assert(s0.instructions =~= start_lines());
    lemma_unit_inits(s0, items, seq![], BinaryOp::Add);
    match sp_unit_inits(s0, items) {
        Ok(s1) => {
            let s1c = with_instrs(s1, entry_call_lines());
            lemma_functions(s1c, items, seq![], BinaryOp::Add);
            match sp_functions(s1c, items) {
                Ok(s2) => {
                    lemma_globals_storage(s2, items, BinaryOp::Add);
                    let s3 = globals_storage(s2, items);
                    assert(sp_unit(crate::codegen::model::empty_state(), items) == Ok::<EmitView, EmitFault>(s3));
                    lemma_with_helpers(s3);
                    let t = with_helpers(s3);
                    let lines = program_lines(s3);
                    let p = program_prologue();
                    let rest = lines.skip(2);
                    assert(t.instructions.len() >= 1);
                    assert(s0.instructions[0] == start_lines()[0]);
                    assert(s1.instructions[0] == start_lines()[0]);
                    assert(s1c.instructions[0] == start_lines()[0]);
                    assert(t.instructions[0] == start_lines()[0]);
                    assert(lines =~= p + rest);
                    lemma_join_append(p, rest);
                    let text = join_lines(lines);
                    assert(text.subrange(0, join_lines(p).len() as int) =~= join_lines(p));
                },
                Err(_) => {},
            }
        },
        Err(_) => {},
    }
}

/// A unit that passes MARIE validation (whatever storage classes are refused) never makes
/// emission fail on an unsupported operator: validation catches every such operator first.
pub proof fn law_validated_units_have_no_operator_faults(unit: TranslationUnit, storage: Seq<StorageClass>)
    requires
        validation_result(unit, marie_unsupported_ops(), storage) is None,
    ensures
        !(emit_program(unit) matches Err(EmitFault::UnsupportedOperator(_))),
{
    let items = unit.top_level_items@;
    let s0 = with_instrs(plan_symbols(crate::codegen::model::empty_state(), items), start_lines());
    lemma_unit_inits(s0, items, storage, BinaryOp::Add);
    match sp_unit_inits(s0, items) {
        Ok(s1) => lemma_functions(with_instrs(s1, entry_call_lines()), items, storage, BinaryOp::Add),
        Err(_) => {},
    }
}

/// Helper routines are emitted only when referenced: when no expression of the unit uses
/// `op` (`*`, `%` or `/`), emission never requests that operator's helper routine, and the
/// program's code only includes the routines that were requested.
pub proof fn law_helper_only_when_used(unit: TranslationUnit, op: BinaryOp)
    requires
        validation_result(unit, seq![op], seq![]) is None,
    ensures
        sp_unit(crate::codegen::model::empty_state(), unit.top_level_items@) matches Ok(s) ==> !helper_flag(s, op),
{
    let items = unit.top_level_items@;
    let e = crate::codegen::model::empty_state();
    let s0 = with_instrs(plan_symbols(e, items), start_lines());
    lemma_plan_keeps_code(e, items, op);
    lemma_unit_inits(s0, items, seq![], op);
    match sp_unit_inits(s0, items) {
        Ok(s1) => {
            let s1c = with_instrs(s1, entry_call_lines());
            lemma_functions(s1c, items, seq![], op);
            match sp_functions(s1c, items) {
                Ok(s2) => lemma_globals_storage(s2, items, op),
                Err(_) => {},
            }
        },
        Err(_) => {},
    }
}

/// The constant pool keeps one cell per value. The first request for `v` adds the line
/// `label, DEC v` to the data section (the label is `int_const_label(v)`: `const_zero`,
/// `const_one`, `const_int_<v>` or `const_int_neg_<-v>`) unless `v` already has a cell, in
/// which case nothing changes; a second request leaves the state as the first left it. The
/// code section is never touched.
pub proof fn law_constant_pool_reuses_cells(s: EmitView, v: i64)
    ensures
        ensure_int_const(ensure_int_const(s, v), v) == ensure_int_const(s, v),
        ensure_int_const(s, v).instructions == s.instructions,
        v == 0 ==> ensure_int_const(s, v).data == (if s.has_zero_const { s.data } else {
            s.data.push("const_zero, DEC 0"@)
        }),
        v == 1 ==> ensure_int_const(s, v).data == (if s.has_one_const { s.data } else {
            s.data.push("const_one, DEC 1"@)
        }),
        v != 0 && v != 1 && s.int_consts.contains(v) ==> ensure_int_const(s, v) == s,
        v != 0 && v != 1 && !s.int_consts.contains(v) ==> ensure_int_const(s, v).data
            == s.data.push(int_const_label(v) + ", DEC "@ + dec_int(v as int)),
{
    let t = ensure_int_const(s, v);
    if v != 0 && v != 1 && !s.int_consts.contains(v) {
        assert(t.int_consts[t.int_consts.len() - 1] == v);
        assert(t.int_consts.contains(v));
    }
}


/// MARIE validation refuses a binary operator exactly when emission has no code for it: the
/// refused operators are the shifts and the bitwise operators, and emission applies every
/// other operator (`+`, `-`, `*`, `/`, `%`, the comparisons, `&&`, `||`) and fails with
/// `UnsupportedOperator` on exactly the refused ones.
pub proof fn law_validation_refuses_exactly_operators_without_code(s: EmitView, op: BinaryOp, lt: Seq<char>,
    rt: Seq<char>)
    ensures
        marie_unsupported_ops().contains(op) <==> (op == BinaryOp::ShiftLeft || op == BinaryOp::ShiftRight
            || op == BinaryOp::BitwiseAnd || op == BinaryOp::BitwiseOr || op == BinaryOp::BitwiseXor),
        binop(s, op, lt, rt) is Err <==> marie_unsupported_ops().contains(op),
        binop(s, op, lt, rt) is Err ==> binop(s, op, lt, rt) == Err::<EmitView, EmitFault>(EmitFault::UnsupportedOperator(op)),
{
    lemma_unsupported_listed(op);
    let m = marie_unsupported_ops();
    if !(op == BinaryOp::ShiftLeft || op == BinaryOp::ShiftRight || op == BinaryOp::BitwiseAnd
        || op == BinaryOp::BitwiseOr || op == BinaryOp::BitwiseXor) {
        assert forall|i: int| 0 <= i < m.len() implies m[i] != op by {}
        assert(!m.contains(op));
    }
}

} // verus!
