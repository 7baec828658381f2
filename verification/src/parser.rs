use vstd::prelude::*;

use crate::ast::{
    lemma_exprs_view_push, lemma_items_view_push, lemma_declarators_view_push, lemma_externals_view_push,
    BinaryOp, Block, BlockItem, BuiltinType, ConstExpr, Declaration, Declarator, Expression,
    ExternalDeclaration, FunctionDeclaration, Parameter, Statement, StorageClass, StructField,
    TranslationUnit, Type, UnaryOp, copy_type, Enumerator, enumerators_view, ExprView, exprs_view, FieldView, ParamView, TypeView,
    field_view, fields_view, params_view, DeclaratorView, declarator_view, declarators_view, ItemView, items_view,
    ExternalView, externals_view,
};
use crate::error::{CompilerError, SourceLocation};
use crate::lexer::{lex, scan_failure, spec_scan, spec_tokens_ok, Token, TokenKind};
use crate::syntax_errors::{e_args, e_assignment, e_binary, e_binary_rest, e_comma_rest, e_expression, e_postfix,
    e_postfix_rest, e_primary, e_unary, sd, syntax_error, e_decl_specs, e_specs_rest, e_struct, e_fields,
    e_struct_declaration, e_field_list, e_declarator, e_pointers, e_direct_declarator, e_suffixes, e_params,
    e_parameter, e_initializer, e_init_list, e_init_suffix, e_more_declarators, e_declarators, e_declaration,
    e_opt_expression, e_compound, e_block_items, e_asm_args, e_statement, e_for_clauses, e_external, e_unit,
    e_translation_unit, e_enum, e_enum_value, e_enumerators, e_constant};
use crate::text::{chars_of, push_char, str_to_string};
use crate::grammar::{g_args, g_assignment, g_binary, g_binary_rest, g_comma_rest, g_expression, g_postfix,
    g_postfix_rest, g_primary, g_unary, is_digits, loc_of, op_at_level, unary_op_of, g_decl_specs, g_specs_rest,
    g_translation_unit, g_enum, g_enum_value, g_enumerators};

verus! {

/// Parser frontend for the C subset.
#[derive(Debug, Default)]
pub struct CParser;

// ---------------------------------------------------------------------------
// Token stream helpers
// ---------------------------------------------------------------------------

/// A token stream the parser can walk: it ends with the only end-of-input token.
pub open spec fn spec_stream_ok(ts: Seq<Token>) -> bool {
    &&& ts.len() > 0
    &&& ts.last().kind == TokenKind::Eof
    &&& forall|i: int| 0 <= i < ts.len() - 1 ==> (#[trigger] ts[i]).kind != TokenKind::Eof
}

/// Result of a sub-parser that starts at `pos`: on success it consumed at least one token and
/// stopped before the end-of-input token; a failure is a parse error.
pub open spec fn spec_progress<T>(ts: Seq<Token>, pos: usize, r: Result<(T, usize), CompilerError>) -> bool {
    match r {
        Ok((_, p)) => pos < p < ts.len(),
        Err(e) => e is Parse,
    }
}

fn kind_at(ts: &Vec<Token>, pos: usize) -> (r: TokenKind)
    requires
        pos < ts.len(),
    ensures
        r == ts@[pos as int].kind,
{
    ts[pos].kind
}

fn location_at(ts: &Vec<Token>, pos: usize) -> (r: SourceLocation)
    requires
        pos < ts.len(),
    ensures
        r == loc_of(ts@, pos as int),
{
    SourceLocation { line: ts[pos].line, column: ts[pos].column }
}

fn error_at(ts: &Vec<Token>, pos: usize, message: &str) -> (r: CompilerError)
    requires
        pos < ts.len(),
    ensures
        r is Parse,
        syntax_error(r, ts@, sd(message@, pos as int)),
{
    CompilerError::parse_at(str_to_string(message), location_at(ts, pos))
}

/// Consumes a token of the given kind.
fn expect(ts: &Vec<Token>, pos: usize, kind: TokenKind, message: &str) -> (r: Result<usize, CompilerError>)
    requires
        spec_stream_ok(ts@),
        pos < ts.len(),
        kind != TokenKind::Eof,
    ensures
        match r {
            Ok(p) => p == pos + 1 && p < ts.len() && ts@[pos as int].kind == kind,
            Err(e) => e is Parse && ts@[pos as int].kind != kind && syntax_error(e, ts@, sd(message@, pos as int)),
        },
{
    if ts[pos].kind == kind {
        Ok(pos + 1)
    } else {
        Err(error_at(ts, pos, message))
    }
}

proof fn lemma_not_last(ts: Seq<Token>, pos: usize)
    requires
        spec_stream_ok(ts),
        pos < ts.len(),
        ts[pos as int].kind != TokenKind::Eof,
    ensures
        pos + 1 < ts.len(),
{
}

// ---------------------------------------------------------------------------
// Literals
// ---------------------------------------------------------------------------

pub open spec fn spec_digit_value(c: char) -> int {
    (c as u32) as int - ('0' as u32) as int
}

/// The value of a string of decimal digits.
pub open spec fn spec_decimal_value(s: Seq<char>) -> int
    decreases s.len(),
{
    if s.len() == 0 {
        0
    } else {
        spec_decimal_value(s.drop_last()) * 10 + spec_digit_value(s.last())
    }
}

/// Reads a decimal integer constant; `None` when it does not fit in an `i64`.
pub fn decimal_value(digits: &Vec<char>) -> (r: Option<i64>)
    requires
        forall|i: int| 0 <= i < digits@.len() ==> '0' <= #[trigger] digits@[i] <= '9',
    ensures
        match r {
            Some(v) => v == spec_decimal_value(digits@),
            None => spec_decimal_value(digits@) > i64::MAX,
        },
{
    let mut value: i64 = 0;
    let mut i: usize = 0;
    assert(digits@.take(0) =~= Seq::<char>::empty());
    while i < digits.len()
        invariant
            0 <= i <= digits.len(),
            forall|k: int| 0 <= k < digits@.len() ==> '0' <= #[trigger] digits@[k] <= '9',
            value == spec_decimal_value(digits@.take(i as int)),
            value >= 0,
        decreases digits.len() - i,
    {
        let d = (digits[i] as u32 - '0' as u32) as i64;
        assert(digits@.take(i + 1).drop_last() =~= digits@.take(i as int));
        assert(0 <= d <= 9);
        if value > (i64::MAX - d) / 10 {
            proof {
                lemma_decimal_prefix_bound(digits@, i as int + 1);
            }
            return None;
        }
        value = value * 10 + d;
        i += 1;
    }
    assert(digits@.take(digits.len() as int) =~= digits@);
    Some(value)
}

/// A longer digit string is worth at least as much as its prefix.
proof fn lemma_decimal_prefix_bound(s: Seq<char>, k: int)
    requires
        0 <= k <= s.len(),
        forall|i: int| 0 <= i < s.len() ==> '0' <= #[trigger] s[i] <= '9',
    ensures
        spec_decimal_value(s) >= spec_decimal_value(s.take(k)),
    decreases s.len() - k,
{
    if k < s.len() {
        lemma_decimal_prefix_bound(s, k + 1);
        assert(s.take(k + 1).drop_last() =~= s.take(k));
        lemma_decimal_nonneg(s.take(k));
    } else {
        assert(s.take(k) =~= s);
    }
}

proof fn lemma_decimal_nonneg(s: Seq<char>)
    requires
        forall|i: int| 0 <= i < s.len() ==> '0' <= #[trigger] s[i] <= '9',
    ensures
        spec_decimal_value(s) >= 0,
    decreases s.len(),
{
    if s.len() > 0 {
        assert forall|i: int| 0 <= i < s.drop_last().len() implies '0' <= #[trigger] s.drop_last()[i] <= '9' by {
            assert(s.drop_last()[i] == s[i]);
        }
        lemma_decimal_nonneg(s.drop_last());
    }
}

/// The character that an escape `\c` stands for; unknown escapes keep the backslash.
pub open spec fn spec_escape(c: char) -> Seq<char> {
    if c == 'n' {
        seq!['\n']
    } else if c == 't' {
        seq!['\t']
    } else if c == 'r' {
        seq!['\r']
    } else if c == '\\' {
        seq!['\\']
    } else if c == '"' {
        seq!['"']
    } else {
        seq!['\\', c]
    }
}

/// The text a string literal's content stands for.
pub open spec fn spec_unescape(s: Seq<char>) -> Seq<char>
    decreases s.len(),
{
    if s.len() == 0 {
        Seq::empty()
    } else if s[0] == '\\' {
        if s.len() == 1 {
            seq!['\\']
        } else {
            spec_escape(s[1]) + spec_unescape(s.skip(2))
        }
    } else {
        seq![s[0]] + spec_unescape(s.skip(1))
    }
}

/// Replaces the escape sequences of a string literal's content.
pub fn unescape_string_literal(s: &str) -> (r: String)
    ensures
        r@ == spec_unescape(s@),
{
    let chars = chars_of(s);
    let n = chars.len();
    let mut result = String::new();
    let mut i: usize = 0;
    assert(chars@.skip(0) =~= chars@);
    while i < n
        invariant
            0 <= i <= n,
            n == chars@.len(),
            chars@ == s@,
            result@ + spec_unescape(chars@.skip(i as int)) == spec_unescape(s@),
        decreases n - i,
    {
        let ghost rest = chars@.skip(i as int);
        let c = chars[i];
        if c == '\\' {
            if i + 1 < n {
                let next = chars[i + 1];
                assert(rest.skip(2) =~= chars@.skip(i + 2));
                let ghost before = result@;
                if next == 'n' {
                    push_char(&mut result, '\n');
                } else if next == 't' {
                    push_char(&mut result, '\t');
                } else if next == 'r' {
                    push_char(&mut result, '\r');
                } else if next == '\\' {
                    push_char(&mut result, '\\');
                } else if next == '"' {
                    push_char(&mut result, '"');
                } else {
                    push_char(&mut result, '\\');
                    push_char(&mut result, next);
                }
                assert(result@ =~= before + spec_escape(next));
                assert(result@ + spec_unescape(chars@.skip(i + 2)) =~= before + spec_unescape(rest));
                i = i + 2;
            } else {
                push_char(&mut result, '\\');
                assert(chars@.skip(i + 1) =~= Seq::<char>::empty());
                i = i + 1;
            }
        } else {
            let ghost before = result@;
            push_char(&mut result, c);
            assert(rest.skip(1) =~= chars@.skip(i + 1));
            assert(result@ + spec_unescape(chars@.skip(i + 1)) =~= before + spec_unescape(rest));
            i = i + 1;
        }
    }
    assert(chars@.skip(n as int) =~= Seq::<char>::empty());
    result
}


// ---------------------------------------------------------------------------
// Binary operator tables
// ---------------------------------------------------------------------------

/// Maps a logical-or operator token to `BinaryOp`.
fn map_logical_or_operator(kind: TokenKind) -> (r: Option<BinaryOp>)
    ensures
        r == (if kind == TokenKind::PipePipe { Some(BinaryOp::LogicalOr) } else { None }),
{
    if kind == TokenKind::PipePipe { Some(BinaryOp::LogicalOr) } else { None }
}

/// Maps a logical-and operator token to `BinaryOp`.
fn map_logical_and_operator(kind: TokenKind) -> (r: Option<BinaryOp>)
    ensures
        r == (if kind == TokenKind::AmpAmp { Some(BinaryOp::LogicalAnd) } else { None }),
{
    if kind == TokenKind::AmpAmp { Some(BinaryOp::LogicalAnd) } else { None }
}

/// Maps a bitwise-or operator token to `BinaryOp`.
fn map_bitwise_or_operator(kind: TokenKind) -> (r: Option<BinaryOp>)
    ensures
        r == (if kind == TokenKind::Pipe { Some(BinaryOp::BitwiseOr) } else { None }),
{
    if kind == TokenKind::Pipe { Some(BinaryOp::BitwiseOr) } else { None }
}

/// Maps a bitwise-xor operator token to `BinaryOp`.
fn map_bitwise_xor_operator(kind: TokenKind) -> (r: Option<BinaryOp>)
    ensures
        r == (if kind == TokenKind::Caret { Some(BinaryOp::BitwiseXor) } else { None }),
{
    if kind == TokenKind::Caret { Some(BinaryOp::BitwiseXor) } else { None }
}

/// Maps a bitwise-and operator token to `BinaryOp`.
fn map_bitwise_and_operator(kind: TokenKind) -> (r: Option<BinaryOp>)
    ensures
        r == (if kind == TokenKind::Amp { Some(BinaryOp::BitwiseAnd) } else { None }),
{
    if kind == TokenKind::Amp { Some(BinaryOp::BitwiseAnd) } else { None }
}

/// Maps an equality operator token to `BinaryOp`.
fn map_equality_operator(kind: TokenKind) -> (r: Option<BinaryOp>)
    ensures
        r == (if kind == TokenKind::EqualEqual { Some(BinaryOp::Equal) } else if kind == TokenKind::NotEqual {
            Some(BinaryOp::NotEqual)
        } else { None }),
{
    if kind == TokenKind::EqualEqual {
        Some(BinaryOp::Equal)
    } else if kind == TokenKind::NotEqual {
        Some(BinaryOp::NotEqual)
    } else {
        None
    }
}

/// Maps a relational operator token to `BinaryOp`.
fn map_relational_operator(kind: TokenKind) -> (r: Option<BinaryOp>)
    ensures
        r == (if kind == TokenKind::LessEqual { Some(BinaryOp::LessEqual) } else if kind == TokenKind::GreaterEqual {
            Some(BinaryOp::GreaterEqual)
        } else if kind == TokenKind::Less { Some(BinaryOp::Less) } else if kind == TokenKind::Greater {
            Some(BinaryOp::Greater)
        } else { None }),
{
    if kind == TokenKind::LessEqual {
        Some(BinaryOp::LessEqual)
    } else if kind == TokenKind::GreaterEqual {
        Some(BinaryOp::GreaterEqual)
    } else if kind == TokenKind::Less {
        Some(BinaryOp::Less)
    } else if kind == TokenKind::Greater {
        Some(BinaryOp::Greater)
    } else {
        None
    }
}

/// Maps a shift operator token to `BinaryOp`.
fn map_shift_operator(kind: TokenKind) -> (r: Option<BinaryOp>)
    ensures
        r == (if kind == TokenKind::ShiftLeft { Some(BinaryOp::ShiftLeft) } else if kind == TokenKind::ShiftRight {
            Some(BinaryOp::ShiftRight)
        } else { None }),
{
    if kind == TokenKind::ShiftLeft {
        Some(BinaryOp::ShiftLeft)
    } else if kind == TokenKind::ShiftRight {
        Some(BinaryOp::ShiftRight)
    } else {
        None
    }
}

/// Maps an additive operator token to `BinaryOp`.
fn map_additive_operator(kind: TokenKind) -> (r: Option<BinaryOp>)
    ensures
        r == (if kind == TokenKind::Plus { Some(BinaryOp::Add) } else if kind == TokenKind::Minus {
            Some(BinaryOp::Subtract)
        } else { None }),
{
    if kind == TokenKind::Plus {
        Some(BinaryOp::Add)
    } else if kind == TokenKind::Minus {
        Some(BinaryOp::Subtract)
    } else {
        None
    }
}

/// Maps a multiplicative operator token to `BinaryOp`.
fn map_multiplicative_operator(kind: TokenKind) -> (r: Option<BinaryOp>)
    ensures
        r == (if kind == TokenKind::Star { Some(BinaryOp::Multiply) } else if kind == TokenKind::Percent {
            Some(BinaryOp::Modulo)
        } else if kind == TokenKind::Slash { Some(BinaryOp::Divide) } else { None }),
{
    if kind == TokenKind::Star {
        Some(BinaryOp::Multiply)
    } else if kind == TokenKind::Percent {
        Some(BinaryOp::Modulo)
    } else if kind == TokenKind::Slash {
        Some(BinaryOp::Divide)
    } else {
        None
    }
}

/// The operator that a token denotes at a precedence level (10: `||` down to 1: `* / %`).
fn binary_operator_at_level(level: u8, kind: TokenKind) -> (r: Option<BinaryOp>)
    requires
        1 <= level <= 10,
    ensures
        r == op_at_level(level as nat, kind),
        r is Some ==> kind != TokenKind::Eof,
{
    match level {
        10 => map_logical_or_operator(kind),
        9 => map_logical_and_operator(kind),
        8 => map_bitwise_or_operator(kind),
        7 => map_bitwise_xor_operator(kind),
        6 => map_bitwise_and_operator(kind),
        5 => map_equality_operator(kind),
        4 => map_relational_operator(kind),
        3 => map_shift_operator(kind),
        2 => map_additive_operator(kind),
        _ => map_multiplicative_operator(kind),
    }
}

// ---------------------------------------------------------------------------
// Expressions
// ---------------------------------------------------------------------------

/// Whether a sub-parser's result is what the grammar gives at that position.
pub open spec fn expr_parsed(g: Option<(ExprView, int)>, r: Result<(Expression, usize), CompilerError>) -> bool {
    match r {
        Ok((e, p)) => g == Some((e@, p as int)),
        Err(_) => g is None,
    }
}

/// expression := assignment (',' assignment)* ; the value is the last assignment.
fn parse_expression(ts: &Vec<Token>, pos: usize) -> (r: Result<(Expression, usize), CompilerError>)
    requires
        spec_stream_ok(ts@),
        pos < ts.len(),
    ensures
        r matches Err(e) ==> syntax_error(e, ts@, e_expression(ts@, pos as int)),
        spec_progress(ts@, pos, r),
        expr_parsed(g_expression(ts@, pos as int), r),
    decreases ts.len() - pos, 14nat,
{
    let (expr, p) = parse_assignment(ts, pos)?;
    parse_comma_rest(ts, p, expr)
}

/// The `, assignment` parts of an expression from `p`.
fn parse_comma_rest(ts: &Vec<Token>, p: usize, acc: Expression) -> (r: Result<(Expression, usize), CompilerError>)
    requires
        spec_stream_ok(ts@),
        p < ts.len(),
    ensures
        r matches Err(e) ==> syntax_error(e, ts@, e_comma_rest(ts@, p as int, acc@)),
        match r {
            Ok((_, q)) => p <= q < ts.len(),
            Err(e) => e is Parse,
        },
        expr_parsed(g_comma_rest(ts@, p as int, acc@), r),
    decreases ts.len() - p, 14nat,
{
    if kind_at(ts, p) != TokenKind::Comma {
        return Ok((acc, p));
    }
    proof { lemma_not_last(ts@, p); }
    let (next, q) = parse_assignment(ts, p + 1)?;
    parse_comma_rest(ts, q, next)
}

/// assignment := unary '=' assignment | logical_or
fn parse_assignment(ts: &Vec<Token>, pos: usize) -> (r: Result<(Expression, usize), CompilerError>)
    requires
        spec_stream_ok(ts@),
        pos < ts.len(),
    ensures
        r matches Err(e) ==> syntax_error(e, ts@, e_assignment(ts@, pos as int)),
        spec_progress(ts@, pos, r),
        expr_parsed(g_assignment(ts@, pos as int), r),
    decreases ts.len() - pos, 13nat,
{
    let (lhs, p) = parse_binary(ts, pos, 10)?;
    if kind_at(ts, p) != TokenKind::Assign {
        return Ok((lhs, p));
    }
    let (target, q) = parse_unary(ts, pos)?;
    if q != p {
        return Ok((lhs, p));
    }
    proof { lemma_not_last(ts@, p); }
    let (value, end) = parse_assignment(ts, p + 1)?;
    Ok((
        Expression::Assignment {
            target: Box::new(target),
            value: Box::new(value),
            location: Some(location_at(ts, pos)),
        },
        end,
    ))
}

/// Left-associative binary expressions of precedence `level` (10 for `||` down to 1 for `* / %`).
fn parse_binary(ts: &Vec<Token>, pos: usize, level: u8) -> (r: Result<(Expression, usize), CompilerError>)
    requires
        spec_stream_ok(ts@),
        pos < ts.len(),
        1 <= level <= 10,
    ensures
        r matches Err(e) ==> syntax_error(e, ts@, e_binary(ts@, pos as int, level as nat)),
        spec_progress(ts@, pos, r),
        expr_parsed(g_binary(ts@, pos as int, level as nat), r),
    decreases ts.len() - pos, level as nat + 2,
{
    let location = location_at(ts, pos);
    let (expr, p) = if level == 1 { parse_unary(ts, pos)? } else { parse_binary(ts, pos, level - 1)? };
    parse_binary_rest(ts, p, level, expr, location)
}

/// The `op operand` parts of a binary expression from `p`.
fn parse_binary_rest(ts: &Vec<Token>, p: usize, level: u8, acc: Expression, location: SourceLocation) -> (r: Result<(Expression, usize), CompilerError>)
    requires
        spec_stream_ok(ts@),
        p < ts.len(),
        1 <= level <= 10,
    ensures
        r matches Err(e) ==> syntax_error(e, ts@, e_binary_rest(ts@, p as int, level as nat, acc@, location)),
        match r {
            Ok((_, q)) => p <= q < ts.len(),
            Err(e) => e is Parse,
        },
        expr_parsed(g_binary_rest(ts@, p as int, level as nat, acc@, location), r),
    decreases ts.len() - p, level as nat + 2,
{
    let op = match binary_operator_at_level(level, kind_at(ts, p)) {
        Some(op) => op,
        None => {
            return Ok((acc, p));
        },
    };
    proof { lemma_not_last(ts@, p); }
    let (rhs, q) = if level == 1 { parse_unary(ts, p + 1)? } else { parse_binary(ts, p + 1, level - 1)? };
    parse_binary_rest(
        ts,
        q,
        level,
        Expression::Binary { op, lhs: Box::new(acc), rhs: Box::new(rhs), location: Some(location) },
        location,
    )
}

/// unary := ('++' | '--' | '&' | '*' | '+' | '-' | '!') unary | postfix
fn parse_unary(ts: &Vec<Token>, pos: usize) -> (r: Result<(Expression, usize), CompilerError>)
    requires
        spec_stream_ok(ts@),
        pos < ts.len(),
    ensures
        r matches Err(e) ==> syntax_error(e, ts@, e_unary(ts@, pos as int)),
        spec_progress(ts@, pos, r),
        expr_parsed(g_unary(ts@, pos as int), r),
    decreases ts.len() - pos, 2nat,
{
    let kind = kind_at(ts, pos);
    if kind == TokenKind::PlusPlus || kind == TokenKind::MinusMinus {
        proof { lemma_not_last(ts@, pos); }
        let (target, p) = parse_unary(ts, pos + 1)?;
        return Ok((
            Expression::IncDec {
                target: Box::new(target),
                decrement: kind == TokenKind::MinusMinus,
                prefix: true,
                location: Some(location_at(ts, pos)),
            },
            p,
        ));
    }
    let op = match kind_at(ts, pos) {
        TokenKind::Amp => Some(UnaryOp::AddressOf),
        TokenKind::Star => Some(UnaryOp::Dereference),
        TokenKind::Plus => Some(UnaryOp::Plus),
        TokenKind::Minus => Some(UnaryOp::Minus),
        TokenKind::Bang => Some(UnaryOp::LogicalNot),
        _ => None,
    };
    assert(op == unary_op_of(ts@[pos as int].kind));
    match op {
        Some(op) => {
            proof { lemma_not_last(ts@, pos); }
            let (expr, p) = parse_unary(ts, pos + 1)?;
            Ok((Expression::Unary { op, expr: Box::new(expr), location: Some(location_at(ts, pos)) }, p))
        },
        None => parse_postfix(ts, pos),
    }
}

/// postfix := primary ('[' expression ']' | '(' arguments? ')' | '.' ident | '->' ident)*
fn parse_postfix(ts: &Vec<Token>, pos: usize) -> (r: Result<(Expression, usize), CompilerError>)
    requires
        spec_stream_ok(ts@),
        pos < ts.len(),
    ensures
        r matches Err(e) ==> syntax_error(e, ts@, e_postfix(ts@, pos as int)),
        spec_progress(ts@, pos, r),
        expr_parsed(g_postfix(ts@, pos as int), r),
    decreases ts.len() - pos, 1nat,
{
    let (expr, p) = parse_primary(ts, pos)?;
    parse_postfix_rest(ts, p, expr)
}

/// The suffixes of a postfix expression from `p`.
fn parse_postfix_rest(ts: &Vec<Token>, p: usize, acc: Expression) -> (r: Result<(Expression, usize), CompilerError>)
    requires
        spec_stream_ok(ts@),
        p < ts.len(),
    ensures
        r matches Err(e) ==> syntax_error(e, ts@, e_postfix_rest(ts@, p as int, acc@)),
        match r {
            Ok((_, q)) => p <= q < ts.len(),
            Err(e) => e is Parse,
        },
        expr_parsed(g_postfix_rest(ts@, p as int, acc@), r),
    decreases ts.len() - p, 1nat,
{
    let kind = kind_at(ts, p);
    let suffix_location = location_at(ts, p);
    if kind == TokenKind::LBracket {
        proof { lemma_not_last(ts@, p); }
        let (index, q) = parse_expression(ts, p + 1)?;
        let q2 = expect(ts, q, TokenKind::RBracket, "expected ']' after index expression")?;
        proof { lemma_not_last(ts@, q); }
        parse_postfix_rest(
            ts,
            q2,
            Expression::Index { base: Box::new(acc), index: Box::new(index), location: Some(suffix_location) },
        )
    } else if kind == TokenKind::LParen {
        proof { lemma_not_last(ts@, p); }
        let q = p + 1;
        if kind_at(ts, q) == TokenKind::RParen {
            proof { lemma_not_last(ts@, q); }
            let args: Vec<Expression> = Vec::new();
            assert(exprs_view(args@) =~= Seq::<ExprView>::empty());
            return parse_postfix_rest(ts, q + 1, Expression::Call { callee: Box::new(acc), args, location: Some(suffix_location) });
        }
        let start: Vec<Expression> = Vec::new();
        assert(exprs_view(start@) =~= Seq::<ExprView>::empty());
        let (args, q2) = parse_arguments(ts, q, start)?;
        let q3 = expect(ts, q2, TokenKind::RParen, "expected ')' after call arguments")?;
        proof { lemma_not_last(ts@, q2); }
        parse_postfix_rest(ts, q3, Expression::Call { callee: Box::new(acc), args, location: Some(suffix_location) })
    } else if kind == TokenKind::Dot || kind == TokenKind::Arrow {
        proof { lemma_not_last(ts@, p); }
        let q = expect(ts, p + 1, TokenKind::Identifier, "expected member name")?;
        proof { lemma_not_last(ts@, (p + 1) as usize); }
        let member = ts[p + 1].text.clone();
        parse_postfix_rest(
            ts,
            q,
            Expression::MemberAccess {
                base: Box::new(acc),
                member,
                through_pointer: kind == TokenKind::Arrow,
                location: Some(suffix_location),
            },
        )
    } else if kind == TokenKind::PlusPlus || kind == TokenKind::MinusMinus {
        proof { lemma_not_last(ts@, p); }
        parse_postfix_rest(
            ts,
            p + 1,
            Expression::IncDec {
                target: Box::new(acc),
                decrement: kind == TokenKind::MinusMinus,
                prefix: false,
                location: Some(suffix_location),
            },
        )
    } else {
        Ok((acc, p))
    }
}

/// Call arguments from `q`, appended to `acc`: assignments separated by commas.
fn parse_arguments(ts: &Vec<Token>, q: usize, acc: Vec<Expression>) -> (r: Result<(Vec<Expression>, usize), CompilerError>)
    requires
        spec_stream_ok(ts@),
        q < ts.len(),
    ensures
        r matches Err(e) ==> syntax_error(e, ts@, e_args(ts@, q as int)),
        match r {
            Ok((args, q2)) => q < q2 < ts.len() && g_args(ts@, q as int, exprs_view(acc@)) == Some((exprs_view(args@), q2 as int)),
            Err(e) => e is Parse && g_args(ts@, q as int, exprs_view(acc@)) is None,
        },
    decreases ts.len() - q, 15nat,
{
    let (arg, q2) = parse_assignment(ts, q)?;
    let mut acc = acc;
    let ghost before = acc@;
    acc.push(arg);
    assert(acc@.drop_last() =~= before);
    if kind_at(ts, q2) == TokenKind::Comma {
        proof { lemma_not_last(ts@, q2); }
        parse_arguments(ts, q2 + 1, acc)
    } else {
        Ok((acc, q2))
    }
}

/// primary := identifier | integer-constant | '(' expression ')'
fn parse_primary(ts: &Vec<Token>, pos: usize) -> (r: Result<(Expression, usize), CompilerError>)
    requires
        spec_stream_ok(ts@),
        pos < ts.len(),
    ensures
        r matches Err(e) ==> syntax_error(e, ts@, e_primary(ts@, pos as int)),
        spec_progress(ts@, pos, r),
        expr_parsed(g_primary(ts@, pos as int), r),
    decreases ts.len() - pos, 0nat,
{
    let kind = kind_at(ts, pos);
    if kind == TokenKind::Identifier {
        proof { lemma_not_last(ts@, pos); }
        Ok((Expression::Identifier { name: ts[pos].text.clone(), location: Some(location_at(ts, pos)) }, pos + 1))
    } else if kind == TokenKind::IntConstant {
        proof { lemma_not_last(ts@, pos); }
        let digits = chars_of(ts[pos].text.as_str());
        if !all_digits(&digits) {
            return Err(error_at(ts, pos, "invalid integer constant"));
        }
        match decimal_value(&digits) {
            Some(value) => Ok((Expression::IntegerLiteral { value, location: Some(location_at(ts, pos)) }, pos + 1)),
            None => Err(error_at(ts, pos, "number too large to fit in target type")),
        }
    } else if kind == TokenKind::LParen {
        proof { lemma_not_last(ts@, pos); }
        let (expr, p) = parse_expression(ts, pos + 1)?;
        let q = expect(ts, p, TokenKind::RParen, "expected ')'")?;
        proof { lemma_not_last(ts@, p); }
        Ok((expr, q))
    } else {
        if kind == TokenKind::Eof {
            assert(pos == ts.len() - 1);
        }
        Err(error_at(ts, pos, "expected expression"))
    }
}

fn all_digits(digits: &Vec<char>) -> (r: bool)
    ensures
        r == forall|i: int| 0 <= i < digits@.len() ==> '0' <= #[trigger] digits@[i] <= '9',
{
    let mut i: usize = 0;
    while i < digits.len()
        invariant
            0 <= i <= digits.len(),
            forall|k: int| 0 <= k < i ==> '0' <= #[trigger] digits@[k] <= '9',
        decreases digits.len() - i,
    {
        if !('0' <= digits[i] && digits[i] <= '9') {
            return false;
        }
        i += 1;
    }
    true
}


// ---------------------------------------------------------------------------
// Types and declarators
// ---------------------------------------------------------------------------

/// The names as character sequences.
pub open spec fn names_view(v: Seq<String>) -> Seq<Seq<char>> {
    v.map_values(|s: String| s@)
}

/// Whether a name was introduced by an earlier `typedef`.
fn is_typedef_name(typedefs: &Vec<String>, name: &String) -> (r: bool)
    ensures
        r == names_view(typedefs@).contains(name@),
{
    let mut i: usize = 0;
    while i < typedefs.len()
        invariant
            0 <= i <= typedefs.len(),
            forall|k: int| 0 <= k < i ==> typedefs@[k]@ != name@,
        decreases typedefs.len() - i,
    {
        if typedefs[i] == *name {
            assert(names_view(typedefs@)[i as int] == name@);
            return true;
        }
        i += 1;
    }
    assert forall|k: int| 0 <= k < names_view(typedefs@).len() implies names_view(typedefs@)[k] != name@ by {
        assert(names_view(typedefs@)[k] == typedefs@[k]@);
    }
    false
}

/// Whether the token at `pos` can begin a declaration.
fn starts_declaration(ts: &Vec<Token>, pos: usize, typedefs: &Vec<String>) -> (r: bool)
    requires
        pos < ts.len(),
    ensures
        r == crate::grammar::starts_declaration(ts@, pos as int, names_view(typedefs@)),
        r ==> ts@[pos as int].kind != TokenKind::Eof,
{
    match kind_at(ts, pos) {
        TokenKind::KwInt | TokenKind::KwChar | TokenKind::KwVoid | TokenKind::KwStruct | TokenKind::KwEnum
        | TokenKind::KwStatic | TokenKind::KwTypedef => true,
        TokenKind::Identifier => is_typedef_name(typedefs, &ts[pos].text),
        _ => false,
    }
}

/// Specifiers as the grammar gives them: storage class and type by its view.
pub open spec fn specs_parsed(
    g: Option<((Option<StorageClass>, TypeView), int)>,
    r: Result<((Option<StorageClass>, Type), usize), CompilerError>,
) -> bool {
    match r {
        Ok(((sc, t), p)) => g == Some(((sc, t@), p as int)),
        Err(e) => e is Parse && g is None,
    }
}

/// declaration-specifiers := (storage-class | type-specifier)+ ; exactly one type is required.
fn parse_declaration_specifiers(ts: &Vec<Token>, pos: usize, typedefs: &Vec<String>) -> (r: Result<((Option<StorageClass>, Type), usize), CompilerError>)
    requires
        spec_stream_ok(ts@),
        pos < ts.len(),
    ensures
        r matches Err(e) ==> syntax_error(e, ts@, e_decl_specs(ts@, pos as int, names_view(typedefs@))),
        spec_progress(ts@, pos, r),
        specs_parsed(g_decl_specs(ts@, pos as int, names_view(typedefs@)), r),
    decreases ts.len() - pos, 4nat,
{
    parse_specifiers_rest(ts, pos, typedefs, None, None, Ghost(pos))
}

/// The rest of the declaration specifiers from `p`, with the storage class and type so far.
fn parse_specifiers_rest(
    ts: &Vec<Token>,
    p: usize,
    typedefs: &Vec<String>,
    storage_class: Option<StorageClass>,
    base_type: Option<Type>,
    Ghost(start): Ghost<usize>,
) -> (r: Result<((Option<StorageClass>, Type), usize), CompilerError>)
    requires
        spec_stream_ok(ts@),
        start <= p < ts.len(),
        base_type is Some ==> start < p,
    ensures
        r matches Err(e) ==> syntax_error(e, ts@, e_specs_rest(ts@, p as int, names_view(typedefs@), match base_type {
            Some(t) => Some(t@),
            None => None,
        })),
        spec_progress(ts@, start, r),
        specs_parsed(g_specs_rest(ts@, p as int, names_view(typedefs@), storage_class, match base_type {
            Some(t) => Some(t@),
            None => None,
        }), r),
    decreases ts.len() - p, 3nat,
{
    let kind = kind_at(ts, p);
    if kind == TokenKind::Eof {
        assert(p == ts.len() - 1);
        return match base_type {
            Some(ty) => Ok(((storage_class, ty), p)),
            None => Err(error_at(ts, p, "missing type specifier")),
        };
    }
    proof { lemma_not_last(ts@, p); }
    if kind == TokenKind::KwStatic {
        parse_specifiers_rest(ts, p + 1, typedefs, Some(StorageClass::Static), base_type, Ghost(start))
    } else if kind == TokenKind::KwTypedef {
        parse_specifiers_rest(ts, p + 1, typedefs, Some(StorageClass::Typedef), base_type, Ghost(start))
    } else if kind == TokenKind::KwInt {
        parse_specifiers_rest(ts, p + 1, typedefs, storage_class, Some(Type::Builtin(BuiltinType::Int)), Ghost(start))
    } else if kind == TokenKind::KwChar {
        parse_specifiers_rest(ts, p + 1, typedefs, storage_class, Some(Type::Builtin(BuiltinType::Char)), Ghost(start))
    } else if kind == TokenKind::KwVoid {
        parse_specifiers_rest(ts, p + 1, typedefs, storage_class, Some(Type::Builtin(BuiltinType::Void)), Ghost(start))
    } else if kind == TokenKind::KwStruct {
        let (ty, q) = parse_struct_specifier(ts, p, typedefs)?;
        parse_specifiers_rest(ts, q, typedefs, storage_class, Some(ty), Ghost(start))
    } else if kind == TokenKind::KwEnum {
        let (ty, q) = parse_enum_specifier(ts, p)?;
        parse_specifiers_rest(ts, q, typedefs, storage_class, Some(ty), Ghost(start))
    } else if kind == TokenKind::Identifier && base_type.is_none() && is_typedef_name(typedefs, &ts[p].text) {
        parse_specifiers_rest(ts, p + 1, typedefs, storage_class, Some(Type::Alias(ts[p].text.clone())), Ghost(start))
    } else {
        match base_type {
            Some(ty) => Ok(((storage_class, ty), p)),
            None => Err(error_at(ts, p, "missing type specifier")),
        }
    }
}

/// enum-specifier := 'enum' identifier ('{' enumerator (',' enumerator)* ','? '}')?
fn parse_enum_specifier(ts: &Vec<Token>, pos: usize) -> (r: Result<(Type, usize), CompilerError>)
    requires
        spec_stream_ok(ts@),
        pos < ts.len(),
    ensures
        r matches Err(e) ==> syntax_error(e, ts@, e_enum(ts@, pos as int)),
        spec_progress(ts@, pos, r),
        match r {
            Ok((t, q)) => g_enum(ts@, pos as int) == Some((t@, q as int)),
            Err(_) => g_enum(ts@, pos as int) is None,
        },
{
    let p = expect(ts, pos, TokenKind::KwEnum, "expected 'enum'")?;
    let q = expect(ts, p, TokenKind::Identifier, "enum missing name")?;
    proof { lemma_not_last(ts@, p); }
    let name = ts[p].text.clone();
    if kind_at(ts, q) != TokenKind::LBrace {
        let enumerators: Vec<Enumerator> = Vec::new();
        assert(enumerators_view(enumerators@) =~= Seq::<(Seq<char>, i64)>::empty());
        return Ok((Type::Enum { name, enumerators }, q));
    }
    proof { lemma_not_last(ts@, q); }
    let start: Vec<Enumerator> = Vec::new();
    assert(enumerators_view(start@) =~= Seq::<(Seq<char>, i64)>::empty());
    let (enumerators, end) = parse_enumerators(ts, q + 1, 0, start)?;
    Ok((Type::Enum { name, enumerators }, end))
}

/// The value of a decimal constant token.
fn constant_value_at(ts: &Vec<Token>, p: usize) -> (r: Result<i64, CompilerError>)
    requires
        spec_stream_ok(ts@),
        p < ts.len(),
    ensures
        match r {
            Ok(v) => is_digits(ts@[p as int].text@) && spec_decimal_value(ts@[p as int].text@) <= i64::MAX
                && v == spec_decimal_value(ts@[p as int].text@),
            Err(e) => e is Parse && syntax_error(e, ts@, e_constant(ts@, p as int))
                && !(is_digits(ts@[p as int].text@) && spec_decimal_value(ts@[p as int].text@) <= i64::MAX),
        },
{
    let digits = chars_of(ts[p].text.as_str());
    if !all_digits(&digits) {
        return Err(error_at(ts, p, "invalid integer constant"));
    }
    match decimal_value(&digits) {
        Some(value) => Ok(value),
        None => Err(error_at(ts, p, "number too large to fit in target type")),
    }
}

/// enumerator-value := integer-constant | '-' integer-constant
fn parse_enum_value(ts: &Vec<Token>, p: usize) -> (r: Result<(i128, usize), CompilerError>)
    requires
        spec_stream_ok(ts@),
        p < ts.len(),
    ensures
        r matches Err(e) ==> e is Parse && syntax_error(e, ts@, e_enum_value(ts@, p as int)),
        match r {
            Ok((v, q)) => g_enum_value(ts@, p as int) == Some((v as int, q as int)) && p < q < ts.len(),
            Err(_) => g_enum_value(ts@, p as int) is None,
        },
{
    let kind = kind_at(ts, p);
    if kind == TokenKind::IntConstant {
        proof { lemma_not_last(ts@, p); }
        let v = constant_value_at(ts, p)?;
        Ok((v as i128, p + 1))
    } else if kind == TokenKind::Minus {
        proof { lemma_not_last(ts@, p); }
        if kind_at(ts, p + 1) != TokenKind::IntConstant {
            return Err(error_at(ts, p + 1, "expected enumerator value"));
        }
        proof { lemma_not_last(ts@, (p + 1) as usize); }
        let v = constant_value_at(ts, p + 1)?;
        Ok((-(v as i128), p + 2))
    } else {
        Err(error_at(ts, p, "expected enumerator value"))
    }
}

/// Enumerators from `k` up to and including the closing brace.
fn parse_enumerators(ts: &Vec<Token>, k: usize, next: i128, acc: Vec<Enumerator>) -> (r: Result<(Vec<Enumerator>, usize), CompilerError>)
    requires
        spec_stream_ok(ts@),
        k < ts.len(),
        i64::MIN <= next <= i64::MAX + 1,
    ensures
        r matches Err(e) ==> syntax_error(e, ts@, e_enumerators(ts@, k as int, next as int)),
        match r {
            Ok((es, end)) => k < end < ts.len() && g_enumerators(ts@, k as int, next as int, enumerators_view(acc@))
                == Some((enumerators_view(es@), end as int)),
            Err(e) => e is Parse && g_enumerators(ts@, k as int, next as int, enumerators_view(acc@)) is None,
        },
    decreases ts.len() - k,
{
    let kind = kind_at(ts, k);
    if kind == TokenKind::RBrace {
        proof { lemma_not_last(ts@, k); }
        return Ok((acc, k + 1));
    }
    if kind != TokenKind::Identifier {
        return Err(error_at(ts, k, "expected enumerator"));
    }
    proof { lemma_not_last(ts@, k); }
    let name = ts[k].text.clone();
    let (v, k2) = if kind_at(ts, k + 1) == TokenKind::Assign {
        proof { lemma_not_last(ts@, (k + 1) as usize); }
        parse_enum_value(ts, k + 2)?
    } else {
        (next, k + 1)
    };
    if v < i64::MIN as i128 || v > i64::MAX as i128 {
        return Err(error_at(ts, k, "enumerator value out of range"));
    }
    let mut acc = acc;
    let ghost before = acc@;
    acc.push(Enumerator { name, value: v as i64 });
    assert(enumerators_view(acc@) =~= enumerators_view(before).push((ts@[k as int].text@, v as i64)));
    let kind2 = kind_at(ts, k2);
    if kind2 == TokenKind::Comma {
        proof { lemma_not_last(ts@, k2); }
        parse_enumerators(ts, k2 + 1, v + 1, acc)
    } else if kind2 == TokenKind::RBrace {
        proof { lemma_not_last(ts@, k2); }
        Ok((acc, k2 + 1))
    } else {
        Err(error_at(ts, k2, "expected ',' or '}' after enumerator"))
    }
}

/// struct-specifier := 'struct' identifier ('{' struct-declaration* '}')?
fn parse_struct_specifier(ts: &Vec<Token>, pos: usize, typedefs: &Vec<String>) -> (r: Result<(Type, usize), CompilerError>)
    requires
        spec_stream_ok(ts@),
        pos < ts.len(),
    ensures
        r matches Err(e) ==> syntax_error(e, ts@, e_struct(ts@, pos as int, names_view(typedefs@))),
        spec_progress(ts@, pos, r),
        match r {
            Ok((t, q)) => crate::grammar::g_struct(ts@, pos as int, names_view(typedefs@)) == Some((t@, q as int)),
            Err(_) => crate::grammar::g_struct(ts@, pos as int, names_view(typedefs@)) is None,
        },
    decreases ts.len() - pos, 2nat,
{
    let p = expect(ts, pos, TokenKind::KwStruct, "expected 'struct'")?;
    let q = expect(ts, p, TokenKind::Identifier, "struct missing name")?;
    proof { lemma_not_last(ts@, p); }
    let name = ts[p].text.clone();
    if kind_at(ts, q) != TokenKind::LBrace {
        let fields: Vec<StructField> = Vec::new();
        assert(fields_view(fields@) =~= Seq::<FieldView>::empty());
        return Ok((Type::Struct { name, fields }, q));
    }
    proof { lemma_not_last(ts@, q); }
    let start: Vec<StructField> = Vec::new();
    assert(fields_view(start@) =~= Seq::<FieldView>::empty());
    let (fields, end) = parse_fields(ts, q + 1, typedefs, start)?;
    Ok((Type::Struct { name, fields }, end))
}

pub proof fn lemma_fields_view_append(a: Seq<StructField>, b: Seq<StructField>)
    ensures
        fields_view(a + b) == fields_view(a) + fields_view(b),
    decreases b.len(),
{
    if b.len() == 0 {
        assert(a + b =~= a);
        assert(fields_view(a) + fields_view(b) =~= fields_view(a));
    } else {
        lemma_fields_view_append(a, b.drop_last());
        assert((a + b).drop_last() =~= a + b.drop_last());
        assert((a + b).last() == b.last());
        assert(fields_view(a) + fields_view(b) =~= (fields_view(a) + fields_view(b.drop_last())).push(field_view(b.last())));
    }
}

/// Struct declarations from `k` up to and including the closing brace.
fn parse_fields(ts: &Vec<Token>, k: usize, typedefs: &Vec<String>, acc: Vec<StructField>) -> (r: Result<(Vec<StructField>, usize), CompilerError>)
    requires
        spec_stream_ok(ts@),
        k < ts.len(),
    ensures
        r matches Err(e) ==> syntax_error(e, ts@, e_fields(ts@, k as int, names_view(typedefs@))),
        match r {
            Ok((fs, end)) => k < end < ts.len() && crate::grammar::g_fields(ts@, k as int, names_view(typedefs@), fields_view(acc@))
                == Some((fields_view(fs@), end as int)),
            Err(e) => e is Parse && crate::grammar::g_fields(ts@, k as int, names_view(typedefs@), fields_view(acc@)) is None,
        },
    decreases ts.len() - k, 6nat,
{
    let kind = kind_at(ts, k);
    if kind == TokenKind::RBrace {
        proof { lemma_not_last(ts@, k); }
        return Ok((acc, k + 1));
    }
    let (declared, k2) = parse_struct_declaration(ts, k, typedefs)?;
    let mut acc = acc;
    let mut declared = declared;
    let ghost a0 = acc@;
    let ghost d0 = declared@;
    acc.append(&mut declared);
    proof { lemma_fields_view_append(a0, d0); }
    parse_fields(ts, k2, typedefs, acc)
}

/// struct-declaration := declaration-specifiers declarator (',' declarator)* ';'
fn parse_struct_declaration(ts: &Vec<Token>, pos: usize, typedefs: &Vec<String>) -> (r: Result<(Vec<StructField>, usize), CompilerError>)
    requires
        spec_stream_ok(ts@),
        pos < ts.len(),
    ensures
        r matches Err(e) ==> syntax_error(e, ts@, e_struct_declaration(ts@, pos as int, names_view(typedefs@))),
        spec_progress(ts@, pos, r),
        match r {
            Ok((fs, q)) => crate::grammar::g_struct_declaration(ts@, pos as int, names_view(typedefs@))
                == Some((fields_view(fs@), q as int)),
            Err(_) => crate::grammar::g_struct_declaration(ts@, pos as int, names_view(typedefs@)) is None,
        },
    decreases ts.len() - pos, 5nat,
{
    let ((_storage, base_type), p) = parse_declaration_specifiers(ts, pos, typedefs)?;
    let start: Vec<StructField> = Vec::new();
    assert(fields_view(start@) =~= Seq::<FieldView>::empty());
    parse_field_list(ts, p, typedefs, &base_type, start)
}

/// Field declarators from `p` sharing the base type, up to and including the `;`.
fn parse_field_list(ts: &Vec<Token>, p: usize, typedefs: &Vec<String>, base_type: &Type, acc: Vec<StructField>) -> (r: Result<(Vec<StructField>, usize), CompilerError>)
    requires
        spec_stream_ok(ts@),
        p < ts.len(),
    ensures
        r matches Err(e) ==> syntax_error(e, ts@, e_field_list(ts@, p as int, names_view(typedefs@), base_type@)),
        match r {
            Ok((fs, q)) => p < q < ts.len() && crate::grammar::g_field_list(ts@, p as int, names_view(typedefs@), base_type@, fields_view(acc@))
                == Some((fields_view(fs@), q as int)),
            Err(e) => e is Parse && crate::grammar::g_field_list(ts@, p as int, names_view(typedefs@), base_type@, fields_view(acc@)) is None,
        },
    decreases ts.len() - p, 5nat,
{
    let ((name, ty, _location), q) = parse_declarator(ts, p, copy_type(base_type), typedefs)?;
    if matches!(ty, Type::Function { .. }) {
        return Err(error_at(ts, p, "function pointer fields are not supported"));
    }
    let mut acc = acc;
    let ghost a0 = acc@;
    let ghost fv = FieldView { name: name@, ty: ty@ };
    acc.push(StructField { name, ty });
    assert(acc@.drop_last() =~= a0);
    assert(acc@.len() > 0);
    assert(field_view(acc@.last()) == fv);
    assert(fields_view(acc@) == fields_view(acc@.drop_last()).push(field_view(acc@.last())));
    assert(fields_view(acc@) == fields_view(a0).push(fv));
    if kind_at(ts, q) == TokenKind::Comma {
        proof { lemma_not_last(ts@, q); }
        parse_field_list(ts, q + 1, typedefs, base_type, acc)
    } else {
        let end = expect(ts, q, TokenKind::Semicolon, "expected ';' after struct field")?;
        proof { lemma_not_last(ts@, q); }
        Ok((acc, end))
    }
}

/// A declarator as the grammar gives it: name, type by its view, location.
pub open spec fn declarator_parsed(
    g: Option<((Seq<char>, TypeView, SourceLocation), int)>,
    r: Result<((String, Type, SourceLocation), usize), CompilerError>,
) -> bool {
    match r {
        Ok(((n, t, l), q)) => g == Some(((n@, t@, l), q as int)),
        Err(e) => e is Parse && g is None,
    }
}

/// declarator := '*'* direct-declarator ; returns the name, the composed type and the location.
fn parse_declarator(ts: &Vec<Token>, pos: usize, base: Type, typedefs: &Vec<String>) -> (r: Result<((String, Type, SourceLocation), usize), CompilerError>)
    requires
        spec_stream_ok(ts@),
        pos < ts.len(),
    ensures
        r matches Err(e) ==> syntax_error(e, ts@, e_declarator(ts@, pos as int, names_view(typedefs@), base@)),
        spec_progress(ts@, pos, r),
        declarator_parsed(crate::grammar::g_declarator(ts@, pos as int, names_view(typedefs@), base@), r),
    decreases ts.len() - pos, 2nat,
{
    let location = location_at(ts, pos);
    let ((name, ty), q) = parse_pointers(ts, pos, base, typedefs)?;
    Ok(((name, ty, location), q))
}

/// A named type as the grammar gives it.
pub open spec fn named_parsed(g: Option<((Seq<char>, TypeView), int)>, r: Result<((String, Type), usize), CompilerError>) -> bool {
    match r {
        Ok(((n, t), q)) => g == Some(((n@, t@), q as int)),
        Err(e) => e is Parse && g is None,
    }
}

/// Leading `*`s wrap the type in pointers; then the direct declarator.
fn parse_pointers(ts: &Vec<Token>, p: usize, ty: Type, typedefs: &Vec<String>) -> (r: Result<((String, Type), usize), CompilerError>)
    requires
        spec_stream_ok(ts@),
        p < ts.len(),
    ensures
        r matches Err(e) ==> syntax_error(e, ts@, e_pointers(ts@, p as int, names_view(typedefs@), ty@)),
        spec_progress(ts@, p, r),
        named_parsed(crate::grammar::g_pointers(ts@, p as int, names_view(typedefs@), ty@), r),
    decreases ts.len() - p, 1nat,
{
    if kind_at(ts, p) == TokenKind::Star {
        proof { lemma_not_last(ts@, p); }
        parse_pointers(ts, p + 1, Type::Pointer(Box::new(ty)), typedefs)
    } else {
        parse_direct_declarator(ts, p, ty, typedefs)
    }
}

/// direct-declarator := identifier ('[' assignment? ']' | '(' parameter-list? ')')*
fn parse_direct_declarator(ts: &Vec<Token>, pos: usize, base: Type, typedefs: &Vec<String>) -> (r: Result<((String, Type), usize), CompilerError>)
    requires
        spec_stream_ok(ts@),
        pos < ts.len(),
    ensures
        r matches Err(e) ==> syntax_error(e, ts@, e_direct_declarator(ts@, pos as int, names_view(typedefs@), base@)),
        spec_progress(ts@, pos, r),
        named_parsed(crate::grammar::g_direct_declarator(ts@, pos as int, names_view(typedefs@), base@), r),
    decreases ts.len() - pos, 0nat,
{
    let p = expect(ts, pos, TokenKind::Identifier, "missing identifier in declarator")?;
    proof { lemma_not_last(ts@, pos); }
    let name = ts[pos].text.clone();
    parse_declarator_suffixes(ts, p, typedefs, name, base)
}

/// Array and function suffixes of a declarator from `p`.
fn parse_declarator_suffixes(ts: &Vec<Token>, p: usize, typedefs: &Vec<String>, name: String, ty: Type) -> (r: Result<((String, Type), usize), CompilerError>)
    requires
        spec_stream_ok(ts@),
        p < ts.len(),
    ensures
        r matches Err(e) ==> syntax_error(e, ts@, e_suffixes(ts@, p as int, names_view(typedefs@), ty@)),
        match r {
            Ok((_, q)) => p <= q < ts.len(),
            Err(e) => e is Parse,
        },
        named_parsed(crate::grammar::g_suffixes(ts@, p as int, names_view(typedefs@), name@, ty@), r),
    decreases ts.len() - p, 0nat,
{
    let kind = kind_at(ts, p);
    if kind == TokenKind::LBracket {
        proof { lemma_not_last(ts@, p); }
        let mut q = p + 1;
        let mut size: Option<ConstExpr> = None;
        if kind_at(ts, q) != TokenKind::RBracket {
            let (size_expr, q2) = parse_assignment(ts, q)?;
            if let Expression::IntegerLiteral { value, .. } = size_expr {
                size = Some(ConstExpr { value });
            }
            assert(size == crate::grammar::array_size(size_expr@));
            q = q2;
        }
        let q3 = expect(ts, q, TokenKind::RBracket, "expected ']' in array declarator")?;
        proof { lemma_not_last(ts@, q); }
        parse_declarator_suffixes(ts, q3, typedefs, name, Type::Array { element: Box::new(ty), size })
    } else if kind == TokenKind::LParen {
        proof { lemma_not_last(ts@, p); }
        let q = p + 1;
        let mut params: Vec<Parameter> = Vec::new();
        assert(params_view(params@) =~= Seq::<ParamView>::empty());
        let mut end = q;
        if kind_at(ts, q) != TokenKind::RParen {
            let (ps, q2) = parse_parameters(ts, q, typedefs, params)?;
            params = ps;
            end = q2;
        }
        let q3 = expect(ts, end, TokenKind::RParen, "expected ')' after parameters")?;
        proof { lemma_not_last(ts@, end); }
        parse_declarator_suffixes(ts, q3, typedefs, name, Type::Function { return_type: Box::new(ty), params })
    } else {
        if kind == TokenKind::Eof {
            assert(p == ts.len() - 1);
        }
        Ok(((name, ty), p))
    }
}

/// Parameter declarations from `q` separated by commas, appended to `acc`.
fn parse_parameters(ts: &Vec<Token>, q: usize, typedefs: &Vec<String>, acc: Vec<Parameter>) -> (r: Result<(Vec<Parameter>, usize), CompilerError>)
    requires
        spec_stream_ok(ts@),
        q < ts.len(),
    ensures
        r matches Err(e) ==> syntax_error(e, ts@, e_params(ts@, q as int, names_view(typedefs@))),
        match r {
            Ok((ps, q2)) => q < q2 < ts.len() && crate::grammar::g_params(ts@, q as int, names_view(typedefs@), params_view(acc@))
                == Some((params_view(ps@), q2 as int)),
            Err(e) => e is Parse && crate::grammar::g_params(ts@, q as int, names_view(typedefs@), params_view(acc@)) is None,
        },
    decreases ts.len() - q, 7nat,
{
    let (param, q2) = parse_parameter_declaration(ts, q, typedefs)?;
    let mut acc = acc;
    let ghost a0 = acc@;
    acc.push(param);
    assert(acc@.drop_last() =~= a0);
    if kind_at(ts, q2) == TokenKind::Comma {
        proof { lemma_not_last(ts@, q2); }
        parse_parameters(ts, q2 + 1, typedefs, acc)
    } else {
        Ok((acc, q2))
    }
}

/// parameter-declaration := declaration-specifiers declarator?
fn parse_parameter_declaration(ts: &Vec<Token>, pos: usize, typedefs: &Vec<String>) -> (r: Result<(Parameter, usize), CompilerError>)
    requires
        spec_stream_ok(ts@),
        pos < ts.len(),
    ensures
        r matches Err(e) ==> syntax_error(e, ts@, e_parameter(ts@, pos as int, names_view(typedefs@))),
        spec_progress(ts@, pos, r),
        match r {
            Ok((prm, q)) => crate::grammar::g_parameter(ts@, pos as int, names_view(typedefs@)) == Some((prm@, q as int)),
            Err(_) => crate::grammar::g_parameter(ts@, pos as int, names_view(typedefs@)) is None,
        },
    decreases ts.len() - pos, 6nat,
{
    let specifier_location = location_at(ts, pos);
    let ((_storage, base_type), p) = parse_declaration_specifiers(ts, pos, typedefs)?;
    let kind = kind_at(ts, p);
    if kind == TokenKind::Star || kind == TokenKind::Identifier {
        let ((name, ty, location), q) = parse_declarator(ts, p, base_type, typedefs)?;
        Ok((Parameter { name: Some(name), ty, location: Some(location) }, q))
    } else {
        Ok((Parameter { name: None, ty: base_type, location: Some(specifier_location) }, p))
    }
}

// ---------------------------------------------------------------------------
// Initializers and declarations
// ---------------------------------------------------------------------------

/// The characters of a string literal token between its quotes.
fn string_literal_content(ts: &Vec<Token>, pos: usize) -> (r: Result<String, CompilerError>)
    requires
        pos < ts.len(),
    ensures
        r matches Err(e) ==> syntax_error(e, ts@, sd("invalid string literal"@, pos as int)),
        match crate::grammar::literal_content(ts@[pos as int].text@) {
            Some(c) => r matches Ok(s) && s@ == c,
            None => r matches Err(e) && e is Parse,
        },
{
    let chars = chars_of(ts[pos].text.as_str());
    let n = chars.len();
    if n < 2 || chars[0] != '"' || chars[n - 1] != '"' {
        return Err(error_at(ts, pos, "invalid string literal"));
    }
    let mut out = String::new();
    let mut i: usize = 1;
    while i < n - 1
        invariant
            1 <= i <= n - 1,
            n == chars.len(),
            out@ == chars@.subrange(1, i as int),
        decreases n - 1 - i,
    {
        push_char(&mut out, chars[i]);
        assert(chars@.subrange(1, i + 1) =~= chars@.subrange(1, i as int).push(chars@[i as int]));
        i += 1;
    }
    Ok(out)
}

/// The array initializer that a string literal stands for: its characters, then a zero.
fn parse_string_literal_as_initializer(ts: &Vec<Token>, pos: usize) -> (r: Result<Expression, CompilerError>)
    requires
        pos < ts.len(),
    ensures
        r matches Err(e) ==> syntax_error(e, ts@, sd("invalid string literal"@, pos as int)),
        match crate::grammar::literal_content(ts@[pos as int].text@) {
            Some(c) => r matches Ok(e) && e@ == crate::grammar::string_initializer(spec_unescape(c), loc_of(ts@, pos as int)),
            None => r matches Err(e) && e is Parse,
        },
{
    let content = string_literal_content(ts, pos)?;
    let chars = chars_of(unescape_string_literal(content.as_str()).as_str());
    let ghost text = chars@;
    let mut elements: Vec<Expression> = Vec::new();
    let mut i: usize = 0;
    while i < chars.len()
        invariant
            0 <= i <= chars.len(),
            text == chars@,
            exprs_view(elements@) == Seq::new(i as nat, |k: int| ExprView::IntegerLiteral(text[k] as u32 as i64, None)),
        decreases chars.len() - i,
    {
        let ghost before = elements@;
        let element = Expression::IntegerLiteral { value: chars[i] as u32 as i64, location: None };
        proof { lemma_exprs_view_push(before, element); }
        elements.push(element);
        assert(Seq::new((i + 1) as nat, |k: int| ExprView::IntegerLiteral(text[k] as u32 as i64, None)) =~= Seq::new(
            i as nat, |k: int| ExprView::IntegerLiteral(text[k] as u32 as i64, None)).push(
            ExprView::IntegerLiteral(text[i as int] as u32 as i64, None)));
        i += 1;
    }
    let ghost before = elements@;
    let last = Expression::IntegerLiteral { value: 0, location: None };
    proof { lemma_exprs_view_push(before, last); }
    elements.push(last);
    assert(Seq::new(text.len(), |k: int| ExprView::IntegerLiteral(text[k] as u32 as i64, None)) =~= Seq::new(
        chars.len() as nat, |k: int| ExprView::IntegerLiteral(text[k] as u32 as i64, None)));
    Ok(Expression::ArrayInitializer { elements, location: Some(location_at(ts, pos)) })
}

/// initializer := '{' (assignment (',' assignment)* ','?)? '}' | string-literal | assignment
fn parse_initializer(ts: &Vec<Token>, pos: usize) -> (r: Result<(Expression, usize), CompilerError>)
    requires
        spec_stream_ok(ts@),
        pos < ts.len(),
    ensures
        r matches Err(e) ==> syntax_error(e, ts@, e_initializer(ts@, pos as int)),
        spec_progress(ts@, pos, r),
        expr_parsed(crate::grammar::g_initializer(ts@, pos as int), r),
{
    let kind = kind_at(ts, pos);
    if kind == TokenKind::StringLiteral {
        proof { lemma_not_last(ts@, pos); }
        let init = parse_string_literal_as_initializer(ts, pos)?;
        return Ok((init, pos + 1));
    }
    if kind != TokenKind::LBrace {
        if kind == TokenKind::Eof {
            assert(pos == ts.len() - 1);
            return Err(error_at(ts, pos, "expected expression"));
        }
        proof { lemma_not_last(ts@, pos); }
        return parse_assignment(ts, pos);
    }
    proof { lemma_not_last(ts@, pos); }
    let location = location_at(ts, pos);
    let start: Vec<Expression> = Vec::new();
    assert(exprs_view(start@) =~= Seq::<ExprView>::empty());
    let (elements, end) = parse_initializer_list(ts, pos + 1, start)?;
    Ok((Expression::ArrayInitializer { elements, location: Some(location) }, end))
}

/// Elements of a brace initializer from `p`, up to and including the closing brace.
fn parse_initializer_list(ts: &Vec<Token>, p: usize, acc: Vec<Expression>) -> (r: Result<(Vec<Expression>, usize), CompilerError>)
    requires
        spec_stream_ok(ts@),
        p < ts.len(),
    ensures
        r matches Err(e) ==> syntax_error(e, ts@, e_init_list(ts@, p as int)),
        match r {
            Ok((es, end)) => p < end < ts.len() && crate::grammar::g_init_list(ts@, p as int, exprs_view(acc@))
                == Some((exprs_view(es@), end as int)),
            Err(e) => e is Parse && crate::grammar::g_init_list(ts@, p as int, exprs_view(acc@)) is None,
        },
    decreases ts.len() - p,
{
    let kind = kind_at(ts, p);
    if kind == TokenKind::RBrace {
        proof { lemma_not_last(ts@, p); }
        return Ok((acc, p + 1));
    }
    if kind == TokenKind::Eof {
        assert(p == ts.len() - 1);
        return Err(error_at(ts, p, "expected expression"));
    }
    let (element, q) = parse_assignment(ts, p)?;
    let mut acc = acc;
    let ghost a0 = acc@;
    acc.push(element);
    assert(acc@.drop_last() =~= a0);
    if kind_at(ts, q) == TokenKind::Comma {
        proof { lemma_not_last(ts@, q); }
        parse_initializer_list(ts, q + 1, acc)
    } else if kind_at(ts, q) == TokenKind::RBrace {
        parse_initializer_list(ts, q, acc)
    } else {
        Err(error_at(ts, q, "expected ',' or '}' in initializer list"))
    }
}

/// The rest of an init-declarator after its declarator: an optional '=' initializer.
fn parse_initializer_suffix(ts: &Vec<Token>, pos: usize) -> (r: Result<(Option<Expression>, usize), CompilerError>)
    requires
        spec_stream_ok(ts@),
        pos < ts.len(),
    ensures
        r matches Err(e) ==> syntax_error(e, ts@, e_init_suffix(ts@, pos as int)),
        match r {
            Ok((init, p)) => pos <= p < ts.len() && crate::grammar::g_init_suffix(ts@, pos as int)
                == Some((crate::ast::opt_expr_view(init), p as int)),
            Err(e) => e is Parse && crate::grammar::g_init_suffix(ts@, pos as int) is None,
        },
{
    if kind_at(ts, pos) != TokenKind::Assign {
        return Ok((None, pos));
    }
    proof { lemma_not_last(ts@, pos); }
    let (init, p) = parse_initializer(ts, pos + 1)?;
    Ok((Some(init), p))
}

/// The declarators of a declaration after its first one, from `p` up to and including ';'.
fn parse_remaining_declarators(
    ts: &Vec<Token>,
    p: usize,
    base_type: &Type,
    typedefs: &Vec<String>,
    acc: Vec<Declarator>,
) -> (r: Result<(Vec<Declarator>, usize), CompilerError>)
    requires
        spec_stream_ok(ts@),
        p < ts.len(),
    ensures
        r matches Err(e) ==> syntax_error(e, ts@, e_more_declarators(ts@, p as int, names_view(typedefs@), base_type@)),
        match r {
            Ok((ds, end)) => p < end < ts.len() && crate::grammar::g_more_declarators(ts@, p as int, names_view(typedefs@),
                base_type@, declarators_view(acc@)) == Some((declarators_view(ds@), end as int)),
            Err(e) => e is Parse && crate::grammar::g_more_declarators(ts@, p as int, names_view(typedefs@), base_type@,
                declarators_view(acc@)) is None,
        },
    decreases ts.len() - p,
{
    if kind_at(ts, p) == TokenKind::Comma {
        proof { lemma_not_last(ts@, p); }
        let ((name, ty, _location), q) = parse_declarator(ts, p + 1, copy_type(base_type), typedefs)?;
        let (initializer, q2) = parse_initializer_suffix(ts, q)?;
        let mut acc = acc;
        let ghost a0 = acc@;
        let declarator = Declarator { name, ty, initializer };
        proof { lemma_declarators_view_push(a0, declarator); }
        acc.push(declarator);
        parse_remaining_declarators(ts, q2, base_type, typedefs, acc)
    } else {
        let end = expect(ts, p, TokenKind::Semicolon, "expected ';' after declaration")?;
        proof { lemma_not_last(ts@, p); }
        Ok((acc, end))
    }
}

/// Whether some declarator declares a function.
fn has_function_declarator(declarators: &Vec<Declarator>) -> (r: bool)
    ensures
        r == crate::grammar::has_function(declarators_view(declarators@)),
{
    proof { lemma_declarators_view(declarators@); }
    let mut i: usize = 0;
    while i < declarators.len()
        invariant
            0 <= i <= declarators.len(),
            declarators_view(declarators@).len() == declarators@.len(),
            forall|k: int| 0 <= k < declarators@.len() ==> #[trigger] declarators_view(declarators@)[k]
                == declarator_view(declarators@[k]),
            forall|k: int| 0 <= k < i ==> !(declarators_view(declarators@)[k].ty is Function),
        decreases declarators.len() - i,
    {
        if matches!(declarators[i].ty, Type::Function { .. }) {
            assert(declarators_view(declarators@)[i as int].ty is Function);
            return true;
        }
        assert(declarators_view(declarators@)[i as int] == declarator_view(declarators@[i as int]));
        i += 1;
    }
    false
}

pub proof fn lemma_declarators_view(s: Seq<Declarator>)
    ensures
        declarators_view(s).len() == s.len(),
        forall|i: int| 0 <= i < s.len() ==> #[trigger] declarators_view(s)[i] == declarator_view(s[i]),
    decreases s.len(),
{
    if s.len() > 0 {
        lemma_declarators_view(s.drop_last());
        assert forall|i: int| 0 <= i < s.len() implies #[trigger] declarators_view(s)[i] == declarator_view(s[i]) by {
            if i < s.len() - 1 {
                assert(s.drop_last()[i] == s[i]);
            }
        }
    }
}

/// The declarators of a declaration from its first declarator at `p`.
fn parse_declarators(ts: &Vec<Token>, p: usize, base_type: &Type, typedefs: &Vec<String>, pos: usize) -> (r: Result<(Vec<Declarator>, usize), CompilerError>)
    requires
        spec_stream_ok(ts@),
        pos < p < ts.len(),
    ensures
        r matches Err(e) ==> syntax_error(e, ts@, e_declarators(ts@, p as int, names_view(typedefs@), base_type@, pos as int)),
        match r {
            Ok((ds, end)) => p < end < ts.len() && crate::grammar::g_declarators(ts@, p as int, names_view(typedefs@), base_type@)
                == Some((declarators_view(ds@), end as int)),
            Err(e) => e is Parse && crate::grammar::g_declarators(ts@, p as int, names_view(typedefs@), base_type@) is None,
        },
{
    let ((name, ty, _location), q) = parse_declarator(ts, p, copy_type(base_type), typedefs)?;
    let (initializer, q2) = parse_initializer_suffix(ts, q)?;
    let mut declarators: Vec<Declarator> = Vec::new();
    let first = Declarator { name, ty, initializer };
    proof { lemma_declarators_view_push(declarators@, first); }
    declarators.push(first);
    assert(declarators_view(declarators@) =~= seq![declarator_view(first)]);
    let (declarators, end) = parse_remaining_declarators(ts, q2, base_type, typedefs, declarators)?;
    if has_function_declarator(&declarators) {
        return Err(error_at(ts, pos, "function prototypes are not supported"));
    }
    Ok((declarators, end))
}

/// declaration := declaration-specifiers (init-declarator (',' init-declarator)*)? ';'
fn parse_declaration(ts: &Vec<Token>, pos: usize, typedefs: &Vec<String>) -> (r: Result<((Declaration, Type), usize), CompilerError>)
    requires
        spec_stream_ok(ts@),
        pos < ts.len(),
    ensures
        r matches Err(e) ==> syntax_error(e, ts@, e_declaration(ts@, pos as int, names_view(typedefs@))),
        spec_progress(ts@, pos, r),
        match r {
            Ok(((d, _), q)) => crate::grammar::g_declaration(ts@, pos as int, names_view(typedefs@)) == Some((d@, q as int)),
            Err(_) => crate::grammar::g_declaration(ts@, pos as int, names_view(typedefs@)) is None,
        },
{
    let ((storage_class, base_type), p) = parse_declaration_specifiers(ts, pos, typedefs)?;
    if kind_at(ts, p) == TokenKind::Semicolon {
        proof { lemma_not_last(ts@, p); }
        let declarators: Vec<Declarator> = Vec::new();
        assert(declarators_view(declarators@) =~= Seq::<DeclaratorView>::empty());
        return Ok(((Declaration { storage_class, declarators }, base_type), p + 1));
    }
    let (declarators, end) = parse_declarators(ts, p, &base_type, typedefs, pos)?;
    Ok(((Declaration { storage_class, declarators }, base_type), end))
}

// ---------------------------------------------------------------------------
// Statements
// ---------------------------------------------------------------------------

/// An optional expression followed by the given closing token.
fn parse_optional_expression(ts: &Vec<Token>, pos: usize, close: TokenKind, message: &str) -> (r: Result<(Option<Expression>, usize), CompilerError>)
    requires
        spec_stream_ok(ts@),
        pos < ts.len(),
        close != TokenKind::Eof,
    ensures
        r matches Err(e) ==> syntax_error(e, ts@, e_opt_expression(ts@, pos as int, close, message@)),
        spec_progress(ts@, pos, r),
        match r {
            Ok((e, q)) => crate::grammar::g_opt_expression(ts@, pos as int, close)
                == Some((crate::ast::opt_expr_view(e), q as int)),
            Err(_) => crate::grammar::g_opt_expression(ts@, pos as int, close) is None,
        },
{
    if kind_at(ts, pos) == close {
        proof { lemma_not_last(ts@, pos); }
        return Ok((None, pos + 1));
    }
    if kind_at(ts, pos) == TokenKind::Eof {
        assert(pos == ts.len() - 1);
        return Err(error_at(ts, pos, "expected expression"));
    }
    proof { lemma_not_last(ts@, pos); }
    let (expr, p) = parse_expression(ts, pos)?;
    let q = expect(ts, p, close, message)?;
    proof { lemma_not_last(ts@, p); }
    Ok((Some(expr), q))
}

/// compound-statement := '{' (declaration | statement)* '}'
fn parse_compound_statement(ts: &Vec<Token>, pos: usize, typedefs: &Vec<String>) -> (r: Result<(Block, usize), CompilerError>)
    requires
        spec_stream_ok(ts@),
        pos < ts.len(),
    ensures
        r matches Err(e) ==> syntax_error(e, ts@, e_compound(ts@, pos as int, names_view(typedefs@))),
        spec_progress(ts@, pos, r),
        match r {
            Ok((b, q)) => crate::grammar::g_compound(ts@, pos as int, names_view(typedefs@)) == Some((b@, q as int)),
            Err(_) => crate::grammar::g_compound(ts@, pos as int, names_view(typedefs@)) is None,
        },
    decreases ts.len() - pos, 0nat,
{
    let p = expect(ts, pos, TokenKind::LBrace, "expected '{'")?;
    proof { lemma_not_last(ts@, pos); }
    let start: Vec<BlockItem> = Vec::new();
    assert(items_view(start@) =~= Seq::<ItemView>::empty());
    let (items, end) = parse_block_items(ts, p, typedefs, start)?;
    Ok((Block { items }, end))
}

/// Block items from `p` up to and including the closing brace, appended to `acc`.
#[verifier::rlimit(50)]
fn parse_block_items(ts: &Vec<Token>, p: usize, typedefs: &Vec<String>, acc: Vec<BlockItem>) -> (r: Result<(Vec<BlockItem>, usize), CompilerError>)
    requires
        spec_stream_ok(ts@),
        p < ts.len(),
    ensures
        r matches Err(e) ==> syntax_error(e, ts@, e_block_items(ts@, p as int, names_view(typedefs@))),
        match r {
            Ok((items, end)) => p < end < ts.len() && crate::grammar::g_block_items(ts@, p as int, names_view(typedefs@),
                items_view(acc@)) == Some((items_view(items@), end as int)),
            Err(e) => e is Parse && crate::grammar::g_block_items(ts@, p as int, names_view(typedefs@), items_view(acc@)) is None,
        },
    decreases ts.len() - p, 2nat,
{
    let kind = kind_at(ts, p);
    if kind == TokenKind::RBrace {
        proof { lemma_not_last(ts@, p); }
        return Ok((acc, p + 1));
    }
    if kind == TokenKind::Eof {
        assert(p == ts.len() - 1);
        return Err(error_at(ts, p, "expected '}'"));
    }
    proof { lemma_not_last(ts@, p); }
    let mut acc = acc;
    let ghost a0 = acc@;
    if starts_declaration(ts, p, typedefs) {
        let ((declaration, _base), q) = parse_declaration(ts, p, typedefs)?;
        let item = BlockItem::Declaration(declaration);
        proof { lemma_items_view_push(a0, item); }
        acc.push(item);
        parse_block_items(ts, q, typedefs, acc)
    } else {
        let (statement, q) = parse_statement(ts, p, typedefs)?;
        let item = BlockItem::Statement(statement);
        proof { lemma_items_view_push(a0, item); }
        acc.push(item);
        parse_block_items(ts, q, typedefs, acc)
    }
}

/// The string literals of an inline assembly statement from `p`, unescaped, appended to `acc`.
fn parse_asm_arguments(ts: &Vec<Token>, p: usize, acc: Vec<String>) -> (r: Result<(Vec<String>, usize), CompilerError>)
    requires
        spec_stream_ok(ts@),
        p < ts.len(),
    ensures
        r matches Err(e) ==> syntax_error(e, ts@, e_asm_args(ts@, p as int)),
        match r {
            Ok((texts, q)) => p < q < ts.len() && crate::grammar::g_asm_args(ts@, p as int, names_view(acc@))
                == Some((names_view(texts@), q as int)),
            Err(e) => e is Parse && crate::grammar::g_asm_args(ts@, p as int, names_view(acc@)) is None,
        },
    decreases ts.len() - p,
{
    if kind_at(ts, p) != TokenKind::StringLiteral {
        return Err(error_at(ts, p, "expected string literal in asm arguments"));
    }
    proof { lemma_not_last(ts@, p); }
    let content = string_literal_content(ts, p)?;
    let mut acc = acc;
    let ghost a0 = acc@;
    acc.push(unescape_string_literal(content.as_str()));
    assert(names_view(acc@) =~= names_view(a0).push(spec_unescape(content@)));
    if kind_at(ts, p + 1) == TokenKind::Comma {
        proof { lemma_not_last(ts@, (p + 1) as usize); }
        parse_asm_arguments(ts, p + 2, acc)
    } else {
        Ok((acc, p + 1))
    }
}

/// Lowers a statement; `break` and `continue` become an empty `return`.
fn parse_statement(ts: &Vec<Token>, pos: usize, typedefs: &Vec<String>) -> (r: Result<(Statement, usize), CompilerError>)
    requires
        spec_stream_ok(ts@),
        pos < ts.len(),
    ensures
        r matches Err(e) ==> syntax_error(e, ts@, e_statement(ts@, pos as int, names_view(typedefs@))),
        spec_progress(ts@, pos, r),
        match r {
            Ok((st, q)) => crate::grammar::g_statement(ts@, pos as int, names_view(typedefs@)) == Some((st@, q as int)),
            Err(_) => crate::grammar::g_statement(ts@, pos as int, names_view(typedefs@)) is None,
        },
    decreases ts.len() - pos, 1nat,
{
    let kind = kind_at(ts, pos);
    if kind == TokenKind::Eof {
        assert(pos == ts.len() - 1);
        return Err(error_at(ts, pos, "expected statement"));
    }
    proof { lemma_not_last(ts@, pos); }
    if kind == TokenKind::LBrace {
        let (block, p) = parse_compound_statement(ts, pos, typedefs)?;
        return Ok((Statement::Block(block), p));
    }
    if kind == TokenKind::KwIf || kind == TokenKind::KwWhile {
        return parse_conditional(ts, pos, typedefs);
    }
    if kind == TokenKind::KwFor {
        return parse_for(ts, pos, typedefs);
    }
    parse_simple_statement(ts, pos, typedefs)
}

/// `if` and `while` statements.
#[verifier::rlimit(50)]
fn parse_conditional(ts: &Vec<Token>, pos: usize, typedefs: &Vec<String>) -> (r: Result<(Statement, usize), CompilerError>)
    requires
        spec_stream_ok(ts@),
        pos < ts.len() - 1,
        ts@[pos as int].kind == TokenKind::KwIf || ts@[pos as int].kind == TokenKind::KwWhile,
    ensures
        r matches Err(e) ==> syntax_error(e, ts@, e_statement(ts@, pos as int, names_view(typedefs@))),
        spec_progress(ts@, pos, r),
        match r {
            Ok((st, q)) => crate::grammar::g_statement(ts@, pos as int, names_view(typedefs@)) == Some((st@, q as int)),
            Err(_) => crate::grammar::g_statement(ts@, pos as int, names_view(typedefs@)) is None,
        },
    decreases ts.len() - pos, 0nat,
{
    let kind = kind_at(ts, pos);
    {
        let p = expect(ts, pos + 1, TokenKind::LParen, "expected '(' after condition keyword")?;
        proof { lemma_not_last(ts@, (pos + 1) as usize); }
        let (condition, p2) = parse_expression(ts, p)?;
        let p3 = expect(ts, p2, TokenKind::RParen, "expected ')' after condition")?;
        proof { lemma_not_last(ts@, p2); }
        let (body, p4) = parse_statement(ts, p3, typedefs)?;
        if kind == TokenKind::KwWhile {
            return Ok((Statement::While { condition, body: Box::new(body) }, p4));
        }
        if kind_at(ts, p4) == TokenKind::KwElse {
            proof { lemma_not_last(ts@, p4); }
            let (else_branch, p5) = parse_statement(ts, p4 + 1, typedefs)?;
            return Ok((
                Statement::If { condition, then_branch: Box::new(body), else_branch: Some(Box::new(else_branch)) },
                p5,
            ));
        }
        return Ok((Statement::If { condition, then_branch: Box::new(body), else_branch: None }, p4));
    }
}

/// The three clauses of a `for` header from `p` (after its `(`), and the position after its `)`.
pub open spec fn g_for_clauses(ts: Seq<Token>, p: int) -> Option<(Option<ExprView>, Option<ExprView>, Option<ExprView>, int)> {
    match crate::grammar::g_opt_expression(ts, p, TokenKind::Semicolon) {
        Some((init, p2)) => match crate::grammar::g_opt_expression(ts, p2, TokenKind::Semicolon) {
            Some((cond, p3)) => match crate::grammar::g_opt_expression(ts, p3, TokenKind::RParen) {
                Some((update, p4)) => Some((init, cond, update, p4)),
                None => None,
            },
            None => None,
        },
        None => None,
    }
}

/// The clauses of a `for` header.
fn parse_for_clauses(ts: &Vec<Token>, p: usize) -> (r: Result<(Option<Expression>, Option<Expression>, Option<Expression>, usize), CompilerError>)
    requires
        spec_stream_ok(ts@),
        p < ts.len(),
    ensures
        r matches Err(e) ==> syntax_error(e, ts@, e_for_clauses(ts@, p as int)),
        match r {
            Ok((i, c, u, q)) => p < q < ts.len() && g_for_clauses(ts@, p as int) == Some((
                crate::ast::opt_expr_view(i), crate::ast::opt_expr_view(c), crate::ast::opt_expr_view(u), q as int)),
            Err(e) => e is Parse && g_for_clauses(ts@, p as int) is None,
        },
{
    let (init, p2) = parse_optional_expression(ts, p, TokenKind::Semicolon, "expected ';' in for header")?;
    let (condition, p3) = parse_optional_expression(ts, p2, TokenKind::Semicolon, "expected ';' in for header")?;
    let (update, p4) = parse_optional_expression(ts, p3, TokenKind::RParen, "expected ')' after for header")?;
    Ok((init, condition, update, p4))
}

/// `for` statements.
#[verifier::rlimit(100)]
#[verifier::spinoff_prover]
fn parse_for(ts: &Vec<Token>, pos: usize, typedefs: &Vec<String>) -> (r: Result<(Statement, usize), CompilerError>)
    requires
        spec_stream_ok(ts@),
        pos < ts.len() - 1,
        ts@[pos as int].kind == TokenKind::KwFor,
    ensures
        r matches Err(e) ==> syntax_error(e, ts@, e_statement(ts@, pos as int, names_view(typedefs@))),
        spec_progress(ts@, pos, r),
        match r {
            Ok((st, q)) => crate::grammar::g_statement(ts@, pos as int, names_view(typedefs@)) == Some((st@, q as int)),
            Err(_) => crate::grammar::g_statement(ts@, pos as int, names_view(typedefs@)) is None,
        },
    decreases ts.len() - pos, 0nat,
{
    let p = expect(ts, pos + 1, TokenKind::LParen, "expected '(' after 'for'")?;
    proof { lemma_not_last(ts@, (pos + 1) as usize); }
    let (init, condition, update, p4) = parse_for_clauses(ts, p)?;
    let (body, p5) = parse_statement(ts, p4, typedefs)?;
    Ok((Statement::For { init, condition, update, body: Box::new(body) }, p5))
}

/// `return`, `break`, `continue`, inline assembly and expression statements.
#[verifier::rlimit(50)]
fn parse_simple_statement(ts: &Vec<Token>, pos: usize, typedefs: &Vec<String>) -> (r: Result<(Statement, usize), CompilerError>)
    requires
        spec_stream_ok(ts@),
        pos < ts.len() - 1,
        ts@[pos as int].kind != TokenKind::LBrace,
        ts@[pos as int].kind != TokenKind::KwIf,
        ts@[pos as int].kind != TokenKind::KwWhile,
        ts@[pos as int].kind != TokenKind::KwFor,
    ensures
        r matches Err(e) ==> syntax_error(e, ts@, e_statement(ts@, pos as int, names_view(typedefs@))),
        spec_progress(ts@, pos, r),
        match r {
            Ok((st, q)) => crate::grammar::g_statement(ts@, pos as int, names_view(typedefs@)) == Some((st@, q as int)),
            Err(_) => crate::grammar::g_statement(ts@, pos as int, names_view(typedefs@)) is None,
        },
{
    let kind = kind_at(ts, pos);
    if kind == TokenKind::KwReturn {
        let (expression, p) = parse_optional_expression(ts, pos + 1, TokenKind::Semicolon, "expected ';' after return")?;
        return Ok((Statement::Return(expression), p));
    }
    if kind == TokenKind::KwBreak || kind == TokenKind::KwContinue {
        let p = expect(ts, pos + 1, TokenKind::Semicolon, "expected ';' after jump statement")?;
        proof { lemma_not_last(ts@, (pos + 1) as usize); }
        return Ok((Statement::Return(None), p));
    }
    if kind == TokenKind::KwAsm {
        let p = expect(ts, pos + 1, TokenKind::LParen, "missing asm arguments")?;
        proof { lemma_not_last(ts@, (pos + 1) as usize); }
        let start: Vec<String> = Vec::new();
        assert(names_view(start@) =~= Seq::<Seq<char>>::empty());
        let (instructions, p2) = parse_asm_arguments(ts, p, start)?;
        let p3 = expect(ts, p2, TokenKind::RParen, "expected ')' after asm arguments")?;
        proof { lemma_not_last(ts@, p2); }
        let p4 = expect(ts, p3, TokenKind::Semicolon, "expected ';' after asm statement")?;
        proof { lemma_not_last(ts@, p3); }
        return Ok((Statement::InlineAsm(instructions), p4));
    }
    let (expression, p) = parse_optional_expression(ts, pos, TokenKind::Semicolon, "expected ';' after expression")?;
    Ok((Statement::Expression(expression), p))
}

// ---------------------------------------------------------------------------
// Translation unit
// ---------------------------------------------------------------------------

/// Lowers one external declaration: a function definition or a declaration.
fn parse_external_declaration(ts: &Vec<Token>, pos: usize, typedefs: &Vec<String>) -> (r: Result<(ExternalDeclaration, usize), CompilerError>)
    requires
        spec_stream_ok(ts@),
        pos < ts.len(),
    ensures
        r matches Err(e) ==> syntax_error(e, ts@, e_external(ts@, pos as int, names_view(typedefs@))),
        spec_progress(ts@, pos, r),
        match r {
            Ok((item, q)) => crate::grammar::g_external(ts@, pos as int, names_view(typedefs@)) == Some((item@, q as int)),
            Err(_) => crate::grammar::g_external(ts@, pos as int, names_view(typedefs@)) is None,
        },
{
    let ((storage_class, base_type), p) = parse_declaration_specifiers(ts, pos, typedefs)?;
    if kind_at(ts, p) == TokenKind::Semicolon {
        proof { lemma_not_last(ts@, p); }
        let item = if storage_class.is_none() && (matches!(base_type, Type::Struct { .. }) || matches!(base_type, Type::Enum { .. })) {
            ExternalDeclaration::TypeDeclaration(base_type)
        } else {
            let declarators: Vec<Declarator> = Vec::new();
            assert(declarators_view(declarators@) =~= Seq::<DeclaratorView>::empty());
            ExternalDeclaration::GlobalDeclaration(Declaration { storage_class, declarators })
        };
        return Ok((item, p + 1));
    }
    let ((name, ty, _location), q) = parse_declarator(ts, p, copy_type(&base_type), typedefs)?;
    if matches!(ty, Type::Function { .. }) && kind_at(ts, q) == TokenKind::LBrace {
        let (body, end) = parse_compound_statement(ts, q, typedefs)?;
        return match ty {
            Type::Function { return_type, params } => Ok((
                ExternalDeclaration::Function(FunctionDeclaration { name, return_type: *return_type, params, body }),
                end,
            )),
            _ => Err(error_at(ts, p, "function definition must use function declarator")),
        };
    }
    let (declarators, end) = parse_declarators(ts, p, &base_type, typedefs, pos)?;
    Ok((ExternalDeclaration::GlobalDeclaration(Declaration { storage_class, declarators }), end))
}

/// Records the names that a `typedef` declaration introduces.
fn record_typedef_names(item: &ExternalDeclaration, typedefs: &mut Vec<String>)
    ensures
        names_view(final(typedefs)@) == names_view(old(typedefs)@) + crate::grammar::typedef_names(item@),
{
    let ghost t0 = names_view(typedefs@);
    if let ExternalDeclaration::GlobalDeclaration(declaration) = item {
        if let Some(StorageClass::Typedef) = declaration.storage_class {
            let ds = &declaration.declarators;
            proof { lemma_declarators_view(ds@); }
            let ghost all = declarators_view(ds@).map_values(|x: DeclaratorView| x.name);
            let mut i: usize = 0;
            while i < ds.len()
                invariant
                    0 <= i <= ds.len(),
                    declarators_view(ds@).len() == ds@.len(),
                    forall|k: int| 0 <= k < ds@.len() ==> #[trigger] declarators_view(ds@)[k] == declarator_view(ds@[k]),
                    all == declarators_view(ds@).map_values(|x: DeclaratorView| x.name),
                    names_view(typedefs@) == t0 + all.take(i as int),
                decreases ds.len() - i,
            {
                let ghost before = names_view(typedefs@);
                typedefs.push(ds[i].name.clone());
                assert(all[i as int] == declarators_view(ds@)[i as int].name);
                assert(names_view(typedefs@) =~= before.push(ds@[i as int].name@));
                assert(all.take(i + 1) =~= all.take(i as int).push(all[i as int]));
                assert(names_view(typedefs@) =~= t0 + all.take(i + 1));
                i += 1;
            }
            assert(all.take(ds.len() as int) =~= all);
            return;
        }
    }
    assert(names_view(typedefs@) =~= t0 + crate::grammar::typedef_names(item@));
}

proof fn lemma_tokens_stream(src: Seq<char>, ts: Seq<Token>)
    requires
        spec_tokens_ok(src, ts),
    ensures
        spec_stream_ok(ts),
{
    assert forall|i: int| 0 <= i < ts.len() - 1 implies (#[trigger] ts[i]).kind != TokenKind::Eof by {
        assert(crate::lexer::spec_token_ok(src, ts[i]));
    }
}

impl CParser {
    /// Creates a new parser frontend instance.
    pub fn new() -> (r: Self) {
        CParser
    }

    /// Parses a preprocessed C translation unit and returns its AST representation: the
    /// source is split into tokens, which the grammar turns into a unit.
    pub fn parse_translation_unit(&self, source: &str) -> (r: Result<TranslationUnit, CompilerError>)
        ensures
            match r {
                Ok(unit) => (exists|ts: Seq<Token>| spec_tokens_ok(source@, ts)) && forall|ts: Seq<Token>|
                    spec_tokens_ok(source@, ts) ==> g_translation_unit(ts) == Some(unit@),
                Err(e) => parse_failure(source@, e),
            },
    {
        let chars = chars_of(source);
        if chars.len() >= usize::MAX {
            return Err(CompilerError::parse(str_to_string("source text is too large")));
        }
        let ts = lex(&chars)?;
        proof { lemma_tokens_stream(chars@, ts@); }
        let r = parse_tokens(&ts);
        proof { lemma_parse_is_unique(chars@, ts@); }
        r
    }
}

/// Every token stream of a source gives what one of them gives.
proof fn lemma_parse_is_unique(src: Seq<char>, ts: Seq<Token>)
    requires
        spec_tokens_ok(src, ts),
    ensures
        forall|other: Seq<Token>| spec_tokens_ok(src, other) ==> g_translation_unit(other) == g_translation_unit(ts),
{
    assert forall|other: Seq<Token>| spec_tokens_ok(src, other) implies g_translation_unit(other)
        == g_translation_unit(ts) by {
        crate::lexer::law_token_stream_is_unique(src, ts, other);
        crate::grammar_facts::law_grammar_reads_token_contents_only(ts, other);
    }
}

/// Why a source text does not parse, as the error says: the text is too long to index, or
/// scanning fails (with the scanner's message and position), or the tokens do not fit the
/// grammar (with the syntax error at the token where parsing stops).
pub open spec fn parse_failure(source: Seq<char>, e: CompilerError) -> bool {
    if source.len() >= usize::MAX {
        e matches CompilerError::Parse(d) && d.message@ == "source text is too large"@ && d.location is None
    } else if spec_scan(source, 0) is None {
        e matches CompilerError::Parse(d) && d.message@ == scan_failure(source, 0).0
            && d.location == Some(scan_failure(source, 0).1)
    } else {
        (forall|ts: Seq<Token>| spec_tokens_ok(source, ts) ==> g_translation_unit(ts) is None)
            && exists|ts: Seq<Token>| spec_tokens_ok(source, ts) && syntax_error(e, ts, e_translation_unit(ts))
    }
}

/// The translation unit that a token stream spells.
pub fn parse_tokens(ts: &Vec<Token>) -> (r: Result<TranslationUnit, CompilerError>)
    requires
        spec_stream_ok(ts@),
    ensures
        match r {
            Ok(unit) => g_translation_unit(ts@) == Some(unit@),
            Err(e) => g_translation_unit(ts@) is None && syntax_error(e, ts@, e_translation_unit(ts@)),
        },
{
    let mut typedefs: Vec<String> = Vec::new();
    let mut top_level_items: Vec<ExternalDeclaration> = Vec::new();
    let mut p: usize = 0;
    assert(names_view(typedefs@) =~= Seq::<Seq<char>>::empty());
    assert(externals_view(top_level_items@) =~= Seq::<ExternalView>::empty());
    while kind_at(ts, p) != TokenKind::Eof
        invariant
            spec_stream_ok(ts@),
            p < ts.len(),
            g_translation_unit(ts@) == crate::grammar::g_unit(ts@, p as int, names_view(typedefs@),
                externals_view(top_level_items@)),
            e_translation_unit(ts@) == e_unit(ts@, p as int, names_view(typedefs@)),
        decreases ts.len() - p,
    {
        let (item, q) = parse_external_declaration(ts, p, &typedefs)?;
        record_typedef_names(&item, &mut typedefs);
        proof { lemma_externals_view_push(top_level_items@, item); }
        top_level_items.push(item);
        p = q;
    }
    Ok(TranslationUnit { top_level_items })
}

} // verus!
