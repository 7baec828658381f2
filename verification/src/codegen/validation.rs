//! Checks that a program uses only features the target can express.
use vstd::prelude::*;
use crate::ast::{BinaryOp, Block, BlockItem, Declarator, Expression, ExternalDeclaration, Statement, StorageClass,
    TranslationUnit};
use crate::codegen::emitter::op_name;
use crate::codegen::model::binary_op_name;
use crate::error::{CompilerError, SourceLocation};
use crate::text::{concat3, str_to_string};

verus! {

/// The first unsupported feature found.
pub enum ValidationFault {
    /// A global declaration with an unsupported storage class.
    Storage(StorageClass),
    /// An unsupported binary operator, with the expression's location.
    Operator(BinaryOp, Option<SourceLocation>),
}

/// The error reported for a validation fault.
pub open spec fn validation_error(e: CompilerError, f: ValidationFault) -> bool {
    match f {
        ValidationFault::Storage(_) => e matches CompilerError::Unsupported(d)
            && d.message@ == "static storage class not supported by target"@
            && d.location == Some(SourceLocation { line: 1, column: 1 }),
        ValidationFault::Operator(op, loc) => e matches CompilerError::Unsupported(d)
            && d.message@ == "operator "@ + binary_op_name(op) + " not supported by target"@
            && d.location == loc,
    }
}

/// `a` if it holds a fault, else `b`.
pub open spec fn first_fault(a: Option<ValidationFault>, b: Option<ValidationFault>) -> Option<ValidationFault> {
    if a is Some {
        a
    } else {
        b
    }
}

/// The first unsupported operator in an expression, in evaluation order of the tree
/// (an operator before its operands, operands left to right).
pub open spec fn bad_expr(e: Expression, ops: Seq<BinaryOp>) -> Option<ValidationFault>
    decreases e,
{
    match e {
        Expression::Binary { op, lhs, rhs, location } => if ops.contains(op) {
            Some(ValidationFault::Operator(op, location))
        } else {
            first_fault(bad_expr(*lhs, ops), bad_expr(*rhs, ops))
        },
        Expression::Unary { expr, .. } => bad_expr(*expr, ops),
        Expression::Assignment { target, value, .. } => first_fault(bad_expr(*target, ops), bad_expr(*value, ops)),
        Expression::Call { callee, args, .. } => first_fault(bad_expr(*callee, ops), bad_exprs(args@, ops)),
        Expression::Index { base, index, .. } => first_fault(bad_expr(*base, ops), bad_expr(*index, ops)),
        Expression::ArrayInitializer { elements, .. } => bad_exprs(elements@, ops),
        Expression::MemberAccess { base, .. } => bad_expr(*base, ops),
        Expression::IncDec { target, .. } => bad_expr(*target, ops),
        Expression::Identifier { .. } => None,
        Expression::IntegerLiteral { .. } => None,
    }
}

pub open spec fn bad_exprs(es: Seq<Expression>, ops: Seq<BinaryOp>) -> Option<ValidationFault>
    decreases es,
{
    if es.len() == 0 {
        None
    } else {
        first_fault(bad_exprs(es.drop_last(), ops), bad_expr(es.last(), ops))
    }
}

pub open spec fn bad_opt(e: Option<Expression>, ops: Seq<BinaryOp>) -> Option<ValidationFault> {
    match e {
        Some(x) => bad_expr(x, ops),
        None => None,
    }
}

/// The first unsupported operator among the initializers of declarators.
pub open spec fn bad_inits(ds: Seq<Declarator>, ops: Seq<BinaryOp>) -> Option<ValidationFault>
    decreases ds.len(),
{
    if ds.len() == 0 {
        None
    } else {
        first_fault(bad_inits(ds.drop_last(), ops), bad_opt(ds.last().initializer, ops))
    }
}

pub open spec fn bad_stmt(s: Statement, ops: Seq<BinaryOp>) -> Option<ValidationFault>
    decreases s,
{
    match s {
        Statement::Block(b) => bad_items(b.items@, ops),
        Statement::If { condition, then_branch, else_branch } => first_fault(
            bad_expr(condition, ops),
            first_fault(bad_stmt(*then_branch, ops), match else_branch {
                Some(eb) => bad_stmt(*eb, ops),
                None => None,
            }),
        ),
        Statement::While { condition, body } => first_fault(bad_expr(condition, ops), bad_stmt(*body, ops)),
        Statement::For { init, condition, update, body } => first_fault(
            bad_opt(init, ops),
            first_fault(bad_opt(condition, ops), first_fault(bad_opt(update, ops), bad_stmt(*body, ops))),
        ),
        Statement::Return(e) => bad_opt(e, ops),
        Statement::Expression(e) => bad_opt(e, ops),
        Statement::InlineAsm(_) => None,
    }
}

pub open spec fn bad_items(items: Seq<BlockItem>, ops: Seq<BinaryOp>) -> Option<ValidationFault>
    decreases items,
{
    if items.len() == 0 {
        None
    } else {
        first_fault(bad_items(items.drop_last(), ops), bad_item(items.last(), ops))
    }
}

pub open spec fn bad_item(item: BlockItem, ops: Seq<BinaryOp>) -> Option<ValidationFault>
    decreases item,
{
    match item {
        BlockItem::Declaration(d) => bad_inits(d.declarators@, ops),
        BlockItem::Statement(s) => bad_stmt(s, ops),
    }
}

/// A storage-class fault of a declaration.
pub open spec fn bad_storage(sc: Option<StorageClass>, storage: Seq<StorageClass>) -> Option<ValidationFault> {
    match sc {
        Some(c) => if storage.contains(c) {
            Some(ValidationFault::Storage(c))
        } else {
            None
        },
        None => None,
    }
}

/// The first local declaration, at any depth of nested statements, whose storage class the
/// target does not support.
pub open spec fn bad_local_storage(items: Seq<BlockItem>, storage: Seq<StorageClass>) -> Option<ValidationFault>
    decreases items,
{
    if items.len() == 0 {
        None
    } else {
        first_fault(bad_local_storage(items.drop_last(), storage), bad_item_storage(items.last(), storage))
    }
}

pub open spec fn bad_item_storage(item: BlockItem, storage: Seq<StorageClass>) -> Option<ValidationFault>
    decreases item,
{
    match item {
        BlockItem::Declaration(d) => bad_storage(d.storage_class, storage),
        BlockItem::Statement(s) => bad_stmt_storage(s, storage),
    }
}

pub open spec fn bad_stmt_storage(s: Statement, storage: Seq<StorageClass>) -> Option<ValidationFault>
    decreases s,
{
    match s {
        Statement::Block(b) => bad_local_storage(b.items@, storage),
        Statement::If { then_branch, else_branch, .. } => first_fault(bad_stmt_storage(*then_branch, storage),
            match else_branch {
                Some(eb) => bad_stmt_storage(*eb, storage),
                None => None,
            }),
        Statement::While { body, .. } => bad_stmt_storage(*body, storage),
        Statement::For { body, .. } => bad_stmt_storage(*body, storage),
        _ => None,
    }
}

/// The first unsupported feature of one top-level item: for a function, a local declaration
/// with an unsupported storage class, else an unsupported operator.
pub open spec fn bad_top_item(item: ExternalDeclaration, ops: Seq<BinaryOp>, storage: Seq<StorageClass>) -> Option<ValidationFault> {
    match item {
        ExternalDeclaration::Function(f) => first_fault(bad_local_storage(f.body.items@, storage), bad_items(f.body.items@, ops)),
        ExternalDeclaration::GlobalDeclaration(d) => match d.storage_class {
            Some(sc) => if storage.contains(sc) {
                Some(ValidationFault::Storage(sc))
            } else {
                bad_inits(d.declarators@, ops)
            },
            None => bad_inits(d.declarators@, ops),
        },
        ExternalDeclaration::TypeDeclaration(_) => None,
    }
}

pub open spec fn bad_top(items: Seq<ExternalDeclaration>, ops: Seq<BinaryOp>, storage: Seq<StorageClass>) -> Option<ValidationFault>
    decreases items.len(),
{
    if items.len() == 0 {
        None
    } else {
        first_fault(bad_top(items.drop_last(), ops, storage), bad_top_item(items.last(), ops, storage))
    }
}

/// The first unsupported feature of a unit, if any.
pub open spec fn validation_result(ast: TranslationUnit, ops: Seq<BinaryOp>, storage: Seq<StorageClass>) -> Option<ValidationFault> {
    bad_top(ast.top_level_items@, ops, storage)
}

/// Validation of a step ended as the model says.
pub open spec fn validated(spec: Option<ValidationFault>, r: Result<(), CompilerError>) -> bool {
    match spec {
        None => r is Ok,
        Some(f) => r matches Err(e) && validation_error(e, f),
    }
}

fn contains_op(ops: &Vec<BinaryOp>, op: BinaryOp) -> (r: bool)
    ensures
        r == ops@.contains(op),
{
    let mut i: usize = 0;
    while i < ops.len()
        invariant
            0 <= i <= ops.len(),
            forall|j: int| 0 <= j < i ==> ops@[j] != op,
        decreases ops.len() - i,
    {
        if ops[i] == op {
            return true;
        }
        i += 1;
    }
    false
}

fn contains_storage(classes: &Vec<StorageClass>, sc: StorageClass) -> (r: bool)
    ensures
        r == classes@.contains(sc),
{
    let mut i: usize = 0;
    while i < classes.len()
        invariant
            0 <= i <= classes.len(),
            forall|j: int| 0 <= j < i ==> classes@[j] != sc,
        decreases classes.len() - i,
    {
        if classes[i] == sc {
            return true;
        }
        i += 1;
    }
    false
}

/// Checks an expression tree for unsupported operators.
#[verifier::loop_isolation(false)]
pub fn validate_expression(expr: &Expression, unsupported_ops: &Vec<BinaryOp>) -> (r: Result<(), CompilerError>)
    ensures
        validated(bad_expr(*expr, unsupported_ops@), r),
    decreases expr, 1nat,
{
    match expr {
        Expression::Binary { op, lhs, rhs, location } => {
            if contains_op(unsupported_ops, *op) {
                return Err(CompilerError::unsupported_with_location(
                    concat3("operator ", op_name(*op), " not supported by target"),
                    *location,
                ));
            }
            validate_expression(lhs, unsupported_ops)?;
            validate_expression(rhs, unsupported_ops)?;
        },
        Expression::Unary { expr: e, .. } => validate_expression(e, unsupported_ops)?,
        Expression::Assignment { target, value, .. } => {
            validate_expression(target, unsupported_ops)?;
            validate_expression(value, unsupported_ops)?;
        },
        Expression::Call { callee, args, .. } => {
            validate_expression(callee, unsupported_ops)?;
            validate_expressions(args, unsupported_ops)?;
        },
        Expression::Index { base, index, .. } => {
            validate_expression(base, unsupported_ops)?;
            validate_expression(index, unsupported_ops)?;
        },
        Expression::ArrayInitializer { elements, .. } => {
            validate_expressions(elements, unsupported_ops)?;
        },
        Expression::MemberAccess { base, .. } => validate_expression(base, unsupported_ops)?,
        Expression::IncDec { target, .. } => validate_expression(target, unsupported_ops)?,
        Expression::Identifier { .. } | Expression::IntegerLiteral { .. } => {},
    }
    Ok(())
}

/// Checks expressions in order.
#[verifier::loop_isolation(false)]
fn validate_expressions(es: &Vec<Expression>, unsupported_ops: &Vec<BinaryOp>) -> (r: Result<(), CompilerError>)
    ensures
        validated(bad_exprs(es@, unsupported_ops@), r),
    decreases es, 0nat,
{
    let mut i: usize = 0;
    while i < es.len()
        invariant
            0 <= i <= es.len(),
            bad_exprs(es@.take(i as int), unsupported_ops@) is None,
        decreases es.len() - i,
    {
        proof {
            assert(decreases_to!(*es => es@));
            assert(decreases_to!(es@ => es@[i as int]));
        }
        let ghost t = es@.take(i + 1);
        assert(t.drop_last() =~= es@.take(i as int));
        assert(t.last() == es@[i as int]);
        let r = validate_expression(&es[i], unsupported_ops);
        if r.is_err() {
            proof {
                lemma_exprs_prefix(es@, unsupported_ops@, i + 1);
            }
            return r;
        }
        i += 1;
    }
    assert(es@.take(es.len() as int) =~= es@);
    Ok(())
}

pub proof fn lemma_exprs_prefix(es: Seq<Expression>, ops: Seq<BinaryOp>, k: int)
    requires
        0 <= k <= es.len(),
        bad_exprs(es.take(k), ops) is Some,
    ensures
        bad_exprs(es, ops) == bad_exprs(es.take(k), ops),
    decreases es.len() - k,
{
    if k < es.len() {
        assert(es.take(k + 1).drop_last() =~= es.take(k));
        lemma_exprs_prefix(es, ops, k + 1);
    } else {
        assert(es.take(k) =~= es);
    }
}

pub proof fn lemma_inits_prefix(ds: Seq<Declarator>, ops: Seq<BinaryOp>, k: int)
    requires
        0 <= k <= ds.len(),
        bad_inits(ds.take(k), ops) is Some,
    ensures
        bad_inits(ds, ops) == bad_inits(ds.take(k), ops),
    decreases ds.len() - k,
{
    if k < ds.len() {
        assert(ds.take(k + 1).drop_last() =~= ds.take(k));
        lemma_inits_prefix(ds, ops, k + 1);
    } else {
        assert(ds.take(k) =~= ds);
    }
}

pub proof fn lemma_items_prefix(items: Seq<BlockItem>, ops: Seq<BinaryOp>, k: int)
    requires
        0 <= k <= items.len(),
        bad_items(items.take(k), ops) is Some,
    ensures
        bad_items(items, ops) == bad_items(items.take(k), ops),
    decreases items.len() - k,
{
    if k < items.len() {
        assert(items.take(k + 1).drop_last() =~= items.take(k));
        lemma_items_prefix(items, ops, k + 1);
    } else {
        assert(items.take(k) =~= items);
    }
}

pub proof fn lemma_top_prefix(items: Seq<ExternalDeclaration>, ops: Seq<BinaryOp>, storage: Seq<StorageClass>, k: int)
    requires
        0 <= k <= items.len(),
        bad_top(items.take(k), ops, storage) is Some,
    ensures
        bad_top(items, ops, storage) == bad_top(items.take(k), ops, storage),
    decreases items.len() - k,
{
    if k < items.len() {
        assert(items.take(k + 1).drop_last() =~= items.take(k));
        lemma_top_prefix(items, ops, storage, k + 1);
    } else {
        assert(items.take(k) =~= items);
    }
}

fn validate_opt(e: &Option<Expression>, unsupported_ops: &Vec<BinaryOp>) -> (r: Result<(), CompilerError>)
    ensures
        validated(bad_opt(*e, unsupported_ops@), r),
{
    match e {
        Some(x) => validate_expression(x, unsupported_ops),
        None => Ok(()),
    }
}

/// Checks the initializers of declarators in order.
#[verifier::loop_isolation(false)]
fn validate_initializers(ds: &Vec<Declarator>, unsupported_ops: &Vec<BinaryOp>) -> (r: Result<(), CompilerError>)
    ensures
        validated(bad_inits(ds@, unsupported_ops@), r),
{
    let mut i: usize = 0;
    while i < ds.len()
        invariant
            0 <= i <= ds.len(),
            bad_inits(ds@.take(i as int), unsupported_ops@) is None,
        decreases ds.len() - i,
    {
        let ghost t = ds@.take(i + 1);
        assert(t.drop_last() =~= ds@.take(i as int));
        assert(t.last() == ds@[i as int]);
        let r = validate_opt(&ds[i].initializer, unsupported_ops);
        if r.is_err() {
            proof {
                lemma_inits_prefix(ds@, unsupported_ops@, i + 1);
            }
            return r;
        }
        i += 1;
    }
    assert(ds@.take(ds.len() as int) =~= ds@);
    Ok(())
}

/// Checks the items of a block in order.
#[verifier::loop_isolation(false)]
pub fn validate_block(block: &Block, unsupported_ops: &Vec<BinaryOp>) -> (r: Result<(), CompilerError>)
    ensures
        validated(bad_items(block.items@, unsupported_ops@), r),
    decreases block, 1nat,
{
    let items = &block.items;
    let mut i: usize = 0;
    while i < items.len()
        invariant
            0 <= i <= items.len(),
            bad_items(items@.take(i as int), unsupported_ops@) is None,
        decreases items.len() - i,
    {
        proof {
            assert(decreases_to!(*block => *items));
            assert(decreases_to!(*items => items@));
            assert(decreases_to!(items@ => items@[i as int]));
        }
        let ghost t = items@.take(i + 1);
        assert(t.drop_last() =~= items@.take(i as int));
        assert(t.last() == items@[i as int]);
        let r = match &items[i] {
            BlockItem::Declaration(d) => {
                let r0 = validate_initializers(&d.declarators, unsupported_ops);
                assert(validated(bad_item(items@[i as int], unsupported_ops@), r0));
                r0
            },
            BlockItem::Statement(s) => {
                let r0 = validate_statement(s, unsupported_ops);
                assert(validated(bad_item(items@[i as int], unsupported_ops@), r0));
                r0
            },
        };
        assert(validated(bad_item(items@[i as int], unsupported_ops@), r));
        if r.is_err() {
            proof {
                lemma_items_prefix(items@, unsupported_ops@, i + 1);
            }
            return r;
        }
        i += 1;
    }
    assert(items@.take(items.len() as int) =~= items@);
    Ok(())
}

/// Checks a statement and the statements and expressions in it.
pub fn validate_statement(stmt: &Statement, unsupported_ops: &Vec<BinaryOp>) -> (r: Result<(), CompilerError>)
    ensures
        validated(bad_stmt(*stmt, unsupported_ops@), r),
    decreases stmt, 0nat,
{
    match stmt {
        Statement::Block(b) => validate_block(b, unsupported_ops)?,
        Statement::If { condition, then_branch, else_branch } => {
            validate_expression(condition, unsupported_ops)?;
            validate_statement(then_branch, unsupported_ops)?;
            if let Some(else_b) = else_branch {
                validate_statement(else_b, unsupported_ops)?;
            }
        },
        Statement::While { condition, body } => {
            validate_expression(condition, unsupported_ops)?;
            validate_statement(body, unsupported_ops)?;
        },
        Statement::For { init, condition, update, body } => {
            validate_opt(init, unsupported_ops)?;
            validate_opt(condition, unsupported_ops)?;
            validate_opt(update, unsupported_ops)?;
            validate_statement(body, unsupported_ops)?;
        },
        Statement::Return(e) => validate_opt(e, unsupported_ops)?,
        Statement::Expression(e) => validate_opt(e, unsupported_ops)?,
        Statement::InlineAsm(_) => {},
    }
    Ok(())
}

fn storage_error() -> (r: CompilerError)
    ensures
        forall|sc: StorageClass| validation_error(r, ValidationFault::Storage(sc)),
{
    CompilerError::unsupported_at(
        str_to_string("static storage class not supported by target"),
        SourceLocation { line: 1, column: 1 },
    )
}

/// Checks the storage classes of the local declarations of a block, at any depth.
#[verifier::loop_isolation(false)]
pub fn validate_local_storage(block: &Block, unsupported_storage: &Vec<StorageClass>) -> (r: Result<(), CompilerError>)
    ensures
        validated(bad_local_storage(block.items@, unsupported_storage@), r),
    decreases block, 1nat,
{
    let items = &block.items;
    let mut i: usize = 0;
    while i < items.len()
        invariant
            0 <= i <= items.len(),
            bad_local_storage(items@.take(i as int), unsupported_storage@) is None,
        decreases items.len() - i,
    {
        proof {
            assert(decreases_to!(*block => *items));
            assert(decreases_to!(*items => items@));
            assert(decreases_to!(items@ => items@[i as int]));
        }
        let ghost t = items@.take(i + 1);
        assert(t.drop_last() =~= items@.take(i as int));
        assert(t.last() == items@[i as int]);
        let r = match &items[i] {
            BlockItem::Declaration(d) => {
                let bad = match d.storage_class {
                    Some(sc) => contains_storage(unsupported_storage, sc),
                    None => false,
                };
                if bad {
                    Err(storage_error())
                } else {
                    Ok(())
                }
            },
            BlockItem::Statement(s) => validate_statement_storage(s, unsupported_storage),
        };
        assert(validated(bad_item_storage(items@[i as int], unsupported_storage@), r));
        if r.is_err() {
            proof {
                lemma_local_storage_prefix(items@, unsupported_storage@, i + 1);
            }
            return r;
        }
        i += 1;
    }
    assert(items@.take(items.len() as int) =~= items@);
    Ok(())
}

pub proof fn lemma_local_storage_prefix(items: Seq<BlockItem>, storage: Seq<StorageClass>, k: int)
    requires
        0 <= k <= items.len(),
        bad_local_storage(items.take(k), storage) is Some,
    ensures
        bad_local_storage(items, storage) == bad_local_storage(items.take(k), storage),
    decreases items.len() - k,
{
    if k < items.len() {
        assert(items.take(k + 1).drop_last() =~= items.take(k));
        lemma_local_storage_prefix(items, storage, k + 1);
    } else {
        assert(items.take(k) =~= items);
    }
}

/// Checks the storage classes of the local declarations in a statement's nested blocks.
pub fn validate_statement_storage(stmt: &Statement, unsupported_storage: &Vec<StorageClass>) -> (r: Result<(), CompilerError>)
    ensures
        validated(bad_stmt_storage(*stmt, unsupported_storage@), r),
    decreases stmt, 0nat,
{
    match stmt {
        Statement::Block(b) => validate_local_storage(b, unsupported_storage),
        Statement::If { then_branch, else_branch, .. } => {
            validate_statement_storage(then_branch, unsupported_storage)?;
            if let Some(else_b) = else_branch {
                validate_statement_storage(else_b, unsupported_storage)?;
            }
            Ok(())
        },
        Statement::While { body, .. } => validate_statement_storage(body, unsupported_storage),
        Statement::For { body, .. } => validate_statement_storage(body, unsupported_storage),
        _ => Ok(()),
    }
}

/// Checks a unit: the storage class of each global declaration, then its initializers,
/// and for a function the storage classes of its local declarations, then its body, in order.
#[verifier::loop_isolation(false)]
pub fn validate_ast(ast: &TranslationUnit, unsupported_ops: &Vec<BinaryOp>, unsupported_storage: &Vec<StorageClass>) -> (r: Result<(), CompilerError>)
    ensures
        validated(validation_result(*ast, unsupported_ops@, unsupported_storage@), r),
{
    let items = &ast.top_level_items;
    let mut i: usize = 0;
    while i < items.len()
        invariant
            0 <= i <= items.len(),
            bad_top(items@.take(i as int), unsupported_ops@, unsupported_storage@) is None,
        decreases items.len() - i,
    {
        let ghost t = items@.take(i + 1);
        assert(t.drop_last() =~= items@.take(i as int));
        assert(t.last() == items@[i as int]);
        let r = match &items[i] {
            ExternalDeclaration::Function(f) => {
                let r1 = validate_local_storage(&f.body, unsupported_storage);
                let r0 = if r1.is_err() {
                    r1
                } else {
                    validate_block(&f.body, unsupported_ops)
                };
                assert(validated(bad_top_item(items@[i as int], unsupported_ops@, unsupported_storage@), r0));
                r0
            },
            ExternalDeclaration::GlobalDeclaration(d) => {
                let bad_storage = match d.storage_class {
                    Some(sc) => contains_storage(unsupported_storage, sc),
                    None => false,
                };
                if bad_storage {
                    Err(CompilerError::unsupported_at(
                        str_to_string("static storage class not supported by target"),
                        SourceLocation { line: 1, column: 1 },
                    ))
                } else {
                    validate_initializers(&d.declarators, unsupported_ops)
                }
            },
            ExternalDeclaration::TypeDeclaration(_) => Ok(()),
        };
        assert(validated(bad_top_item(items@[i as int], unsupported_ops@, unsupported_storage@), r));
        if r.is_err() {
            proof {
                lemma_top_prefix(items@, unsupported_ops@, unsupported_storage@, i + 1);
            }
            return r;
        }
        i += 1;
    }
    assert(items@.take(items.len() as int) =~= items@);
    Ok(())
}

} // verus!
