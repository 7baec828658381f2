//! Which syntax error the parser reports for tokens that the grammar rejects: the message
//! and the token where parsing stops, following the grammar's functions step by step.
use vstd::prelude::*;
use crate::ast::{ExprView, TypeView};
use crate::error::CompilerError;
use crate::grammar::{g_args, g_assignment, g_asm_args, g_binary, g_decl_specs, g_declaration, g_declarator,
    g_expression, g_external, g_init_suffix, g_more_declarators, g_opt_expression, g_params, g_primary,
    g_statement, g_struct, g_struct_declaration, g_enum, g_enum_value, g_unary, has_function, is_digits, literal_content, loc_of,
    op_at_level, starts_declaration, typedef_names, unary_op_of};
use crate::lexer::{Token, TokenKind};
use crate::parser::spec_decimal_value;

verus! {

/// A syntax error: its message and the index of the token it is reported at.
pub struct SyntaxDiag {
    pub message: Seq<char>,
    pub at: int,
}

pub open spec fn sd(message: Seq<char>, at: int) -> SyntaxDiag {
    SyntaxDiag { message, at }
}

/// The value on paths where parsing does not fail.
pub open spec fn no_diag() -> SyntaxDiag {
    SyntaxDiag { message: Seq::empty(), at: -1 }
}

/// `e` is the parse error with that message, located at that token.
pub open spec fn syntax_error(e: CompilerError, ts: Seq<Token>, d: SyntaxDiag) -> bool {
    e matches CompilerError::Parse(x) && x.message@ == d.message && 0 <= d.at < ts.len()
        && x.location == Some(loc_of(ts, d.at))
}

// ---------------------------------------------------------------------------
// Expressions
// ---------------------------------------------------------------------------

pub open spec fn e_expression(ts: Seq<Token>, pos: int) -> SyntaxDiag
    decreases ts.len() - pos, 14nat,
{
    if !(0 <= pos < ts.len()) {
        no_diag()
    } else {
        match g_assignment(ts, pos) {
            Some((e, p)) => if pos < p < ts.len() {
                e_comma_rest(ts, p, e)
            } else {
                no_diag()
            },
            None => e_assignment(ts, pos),
        }
    }
}

pub open spec fn e_comma_rest(ts: Seq<Token>, p: int, acc: ExprView) -> SyntaxDiag
    decreases ts.len() - p, 14nat,
{
    if !(0 <= p < ts.len()) || ts[p].kind != TokenKind::Comma {
        no_diag()
    } else {
        match g_assignment(ts, p + 1) {
            Some((e, q)) => if p + 1 < q < ts.len() {
                e_comma_rest(ts, q, e)
            } else {
                no_diag()
            },
            None => e_assignment(ts, p + 1),
        }
    }
}

pub open spec fn e_assignment(ts: Seq<Token>, pos: int) -> SyntaxDiag
    decreases ts.len() - pos, 13nat,
{
    if !(0 <= pos < ts.len()) {
        no_diag()
    } else {
        match g_binary(ts, pos, 10) {
            Some((_, p)) => if !(pos < p < ts.len()) || ts[p].kind != TokenKind::Assign {
                no_diag()
            } else {
                match g_unary(ts, pos) {
                    Some((_, q)) => if q != p {
                        no_diag()
                    } else {
                        e_assignment(ts, p + 1)
                    },
                    None => e_unary(ts, pos),
                }
            },
            None => e_binary(ts, pos, 10),
        }
    }
}

pub open spec fn e_binary(ts: Seq<Token>, pos: int, level: nat) -> SyntaxDiag
    decreases ts.len() - pos, level + 2,
{
    if !(0 <= pos < ts.len()) || level < 1 || level > 10 {
        no_diag()
    } else {
        let lhs = if level == 1 {
            g_unary(ts, pos)
        } else {
            g_binary(ts, pos, (level - 1) as nat)
        };
        match lhs {
            Some((e, p)) => if pos < p < ts.len() {
                e_binary_rest(ts, p, level, e, loc_of(ts, pos))
            } else {
                no_diag()
            },
            None => if level == 1 {
                e_unary(ts, pos)
            } else {
                e_binary(ts, pos, (level - 1) as nat)
            },
        }
    }
}

pub open spec fn e_binary_rest(ts: Seq<Token>, p: int, level: nat, acc: ExprView, location: crate::error::SourceLocation) -> SyntaxDiag
    decreases ts.len() - p, level + 2,
{
    if !(0 <= p < ts.len()) || level < 1 || level > 10 {
        no_diag()
    } else {
        match op_at_level(level, ts[p].kind) {
            None => no_diag(),
            Some(op) => {
                let rhs = if level == 1 {
                    g_unary(ts, p + 1)
                } else {
                    g_binary(ts, p + 1, (level - 1) as nat)
                };
                match rhs {
                    Some((r, q)) => if p + 1 < q < ts.len() {
                        e_binary_rest(ts, q, level, ExprView::Binary(op, Box::new(acc), Box::new(r), Some(location)), location)
                    } else {
                        no_diag()
                    },
                    None => if level == 1 {
                        e_unary(ts, p + 1)
                    } else {
                        e_binary(ts, p + 1, (level - 1) as nat)
                    },
                }
            },
        }
    }
}

pub open spec fn e_unary(ts: Seq<Token>, pos: int) -> SyntaxDiag
    decreases ts.len() - pos, 2nat,
{
    if !(0 <= pos < ts.len()) {
        no_diag()
    } else if ts[pos].kind == TokenKind::PlusPlus || ts[pos].kind == TokenKind::MinusMinus {
        e_unary(ts, pos + 1)
    } else {
        match unary_op_of(ts[pos].kind) {
            Some(_) => e_unary(ts, pos + 1),
            None => e_postfix(ts, pos),
        }
    }
}

pub open spec fn e_postfix(ts: Seq<Token>, pos: int) -> SyntaxDiag
    decreases ts.len() - pos, 1nat,
{
    if !(0 <= pos < ts.len()) {
        no_diag()
    } else {
        match g_primary(ts, pos) {
            Some((e, p)) => if pos < p < ts.len() {
                e_postfix_rest(ts, p, e)
            } else {
                no_diag()
            },
            None => e_primary(ts, pos),
        }
    }
}

pub open spec fn e_postfix_rest(ts: Seq<Token>, p: int, acc: ExprView) -> SyntaxDiag
    decreases ts.len() - p, 1nat,
{
    if !(0 <= p < ts.len()) {
        no_diag()
    } else {
        let k = ts[p].kind;
        let location = Some(loc_of(ts, p));
        if k == TokenKind::LBracket {
            match g_expression(ts, p + 1) {
                Some((index, q)) => if !(p + 1 < q < ts.len()) {
                    no_diag()
                } else if ts[q].kind != TokenKind::RBracket {
                    sd("expected ']' after index expression"@, q)
                } else if q + 1 < ts.len() {
                    e_postfix_rest(ts, q + 1, ExprView::Index(Box::new(acc), Box::new(index), location))
                } else {
                    no_diag()
                },
                None => e_expression(ts, p + 1),
            }
        } else if k == TokenKind::LParen {
            if p + 2 < ts.len() && ts[p + 1].kind == TokenKind::RParen {
                e_postfix_rest(ts, p + 2, ExprView::Call(Box::new(acc), Seq::empty(), location))
            } else {
                match g_args(ts, p + 1, Seq::empty()) {
                    Some((args, q)) => if !(p + 1 < q < ts.len()) {
                        no_diag()
                    } else if ts[q].kind != TokenKind::RParen {
                        sd("expected ')' after call arguments"@, q)
                    } else if q + 1 < ts.len() {
                        e_postfix_rest(ts, q + 1, ExprView::Call(Box::new(acc), args, location))
                    } else {
                        no_diag()
                    },
                    None => e_args(ts, p + 1),
                }
            }
        } else if k == TokenKind::Dot || k == TokenKind::Arrow {
            if p + 2 < ts.len() && ts[p + 1].kind == TokenKind::Identifier {
                e_postfix_rest(ts, p + 2, ExprView::MemberAccess(Box::new(acc), ts[p + 1].text@, k == TokenKind::Arrow, location))
            } else {
                sd("expected member name"@, p + 1)
            }
        } else if k == TokenKind::PlusPlus || k == TokenKind::MinusMinus {
            e_postfix_rest(ts, p + 1, ExprView::IncDec(Box::new(acc), k == TokenKind::MinusMinus, false, location))
        } else {
            no_diag()
        }
    }
}

pub open spec fn e_args(ts: Seq<Token>, q: int) -> SyntaxDiag
    decreases ts.len() - q, 15nat,
{
    if !(0 <= q < ts.len()) {
        no_diag()
    } else {
        match g_assignment(ts, q) {
            Some((_, q2)) => if q < q2 < ts.len() && ts[q2].kind == TokenKind::Comma {
                e_args(ts, q2 + 1)
            } else {
                no_diag()
            },
            None => e_assignment(ts, q),
        }
    }
}

pub open spec fn e_primary(ts: Seq<Token>, pos: int) -> SyntaxDiag
    decreases ts.len() - pos, 0nat,
{
    if !(0 <= pos < ts.len()) {
        no_diag()
    } else {
        let k = ts[pos].kind;
        let t = ts[pos].text@;
        if k == TokenKind::Identifier {
            no_diag()
        } else if k == TokenKind::IntConstant {
            if !is_digits(t) {
                sd("invalid integer constant"@, pos)
            } else if spec_decimal_value(t) > i64::MAX {
                sd("number too large to fit in target type"@, pos)
            } else {
                no_diag()
            }
        } else if k == TokenKind::LParen {
            match g_expression(ts, pos + 1) {
                Some((_, p)) => if !(pos + 1 < p < ts.len()) {
                    no_diag()
                } else if ts[p].kind != TokenKind::RParen {
                    sd("expected ')'"@, p)
                } else {
                    no_diag()
                },
                None => e_expression(ts, pos + 1),
            }
        } else {
            sd("expected expression"@, pos)
        }
    }
}

// ---------------------------------------------------------------------------
// Types and declarators
// ---------------------------------------------------------------------------

pub open spec fn e_decl_specs(ts: Seq<Token>, pos: int, typedefs: Seq<Seq<char>>) -> SyntaxDiag
    decreases ts.len() - pos, 4nat,
{
    e_specs_rest(ts, pos, typedefs, None)
}

pub open spec fn e_specs_rest(ts: Seq<Token>, p: int, typedefs: Seq<Seq<char>>, base: Option<TypeView>) -> SyntaxDiag
    decreases ts.len() - p, 3nat,
{
    if !(0 <= p < ts.len()) {
        no_diag()
    } else if !(p < ts.len() - 1) {
        if base is None {
            sd("missing type specifier"@, p)
        } else {
            no_diag()
        }
    } else {
        let k = ts[p].kind;
        if k == TokenKind::KwStatic || k == TokenKind::KwTypedef {
            e_specs_rest(ts, p + 1, typedefs, base)
        } else if k == TokenKind::KwInt {
            e_specs_rest(ts, p + 1, typedefs, Some(TypeView::Builtin(crate::ast::BuiltinType::Int)))
        } else if k == TokenKind::KwChar {
            e_specs_rest(ts, p + 1, typedefs, Some(TypeView::Builtin(crate::ast::BuiltinType::Char)))
        } else if k == TokenKind::KwVoid {
            e_specs_rest(ts, p + 1, typedefs, Some(TypeView::Builtin(crate::ast::BuiltinType::Void)))
        } else if k == TokenKind::KwStruct {
            match g_struct(ts, p, typedefs) {
                Some((t, q)) => if p < q < ts.len() {
                    e_specs_rest(ts, q, typedefs, Some(t))
                } else {
                    no_diag()
                },
                None => e_struct(ts, p, typedefs),
            }
        } else if k == TokenKind::KwEnum {
            match g_enum(ts, p) {
                Some((t, q)) => if p < q < ts.len() {
                    e_specs_rest(ts, q, typedefs, Some(t))
                } else {
                    no_diag()
                },
                None => e_enum(ts, p),
            }
        } else if k == TokenKind::Identifier && base is None && typedefs.contains(ts[p].text@) {
            e_specs_rest(ts, p + 1, typedefs, Some(TypeView::Alias(ts[p].text@)))
        } else if base is None {
            sd("missing type specifier"@, p)
        } else {
            no_diag()
        }
    }
}

pub open spec fn e_enum(ts: Seq<Token>, pos: int) -> SyntaxDiag {
    if !(0 <= pos < ts.len()) {
        no_diag()
    } else if ts[pos].kind != TokenKind::KwEnum {
        sd("expected 'enum'"@, pos)
    } else if !(pos + 1 < ts.len()) {
        no_diag()
    } else if ts[pos + 1].kind != TokenKind::Identifier {
        sd("enum missing name"@, pos + 1)
    } else if !(pos + 2 < ts.len()) || ts[pos + 2].kind != TokenKind::LBrace {
        no_diag()
    } else {
        e_enumerators(ts, pos + 3, 0)
    }
}

/// The error of a decimal constant at `p`, if it is one.
pub open spec fn e_constant(ts: Seq<Token>, p: int) -> SyntaxDiag {
    if !is_digits(ts[p].text@) {
        sd("invalid integer constant"@, p)
    } else if spec_decimal_value(ts[p].text@) > i64::MAX {
        sd("number too large to fit in target type"@, p)
    } else {
        no_diag()
    }
}

pub open spec fn e_enum_value(ts: Seq<Token>, p: int) -> SyntaxDiag {
    if !(0 <= p < ts.len()) {
        no_diag()
    } else if ts[p].kind == TokenKind::IntConstant {
        e_constant(ts, p)
    } else if ts[p].kind == TokenKind::Minus {
        if !(p + 1 < ts.len()) {
            no_diag()
        } else if ts[p + 1].kind != TokenKind::IntConstant {
            sd("expected enumerator value"@, p + 1)
        } else {
            e_constant(ts, p + 1)
        }
    } else {
        sd("expected enumerator value"@, p)
    }
}

pub open spec fn e_enumerators(ts: Seq<Token>, k: int, next: int) -> SyntaxDiag
    decreases ts.len() - k,
{
    if !(0 <= k < ts.len()) || ts[k].kind == TokenKind::RBrace {
        no_diag()
    } else if ts[k].kind != TokenKind::Identifier {
        sd("expected enumerator"@, k)
    } else if !(k + 1 < ts.len()) {
        no_diag()
    } else {
        let vk = if ts[k + 1].kind == TokenKind::Assign { g_enum_value(ts, k + 2) } else { Some((next, k + 1)) };
        match vk {
            Some((v, k2)) => if !(i64::MIN <= v <= i64::MAX) {
                sd("enumerator value out of range"@, k)
            } else if !(k < k2 < ts.len()) {
                no_diag()
            } else if ts[k2].kind == TokenKind::Comma {
                e_enumerators(ts, k2 + 1, v + 1)
            } else if ts[k2].kind == TokenKind::RBrace {
                no_diag()
            } else {
                sd("expected ',' or '}' after enumerator"@, k2)
            },
            None => e_enum_value(ts, k + 2),
        }
    }
}

pub open spec fn e_struct(ts: Seq<Token>, pos: int, typedefs: Seq<Seq<char>>) -> SyntaxDiag
    decreases ts.len() - pos, 2nat,
{
    if !(0 <= pos < ts.len()) {
        no_diag()
    } else if ts[pos].kind != TokenKind::KwStruct {
        sd("expected 'struct'"@, pos)
    } else if !(pos + 1 < ts.len()) {
        no_diag()
    } else if ts[pos + 1].kind != TokenKind::Identifier {
        sd("struct missing name"@, pos + 1)
    } else if !(pos + 2 < ts.len()) || ts[pos + 2].kind != TokenKind::LBrace {
        no_diag()
    } else {
        e_fields(ts, pos + 3, typedefs)
    }
}

pub open spec fn e_fields(ts: Seq<Token>, k: int, typedefs: Seq<Seq<char>>) -> SyntaxDiag
    decreases ts.len() - k, 6nat,
{
    if !(0 <= k < ts.len()) || ts[k].kind == TokenKind::RBrace {
        no_diag()
    } else {
        match g_struct_declaration(ts, k, typedefs) {
            Some((_, k2)) => if k < k2 < ts.len() {
                e_fields(ts, k2, typedefs)
            } else {
                no_diag()
            },
            None => e_struct_declaration(ts, k, typedefs),
        }
    }
}

pub open spec fn e_struct_declaration(ts: Seq<Token>, pos: int, typedefs: Seq<Seq<char>>) -> SyntaxDiag
    decreases ts.len() - pos, 5nat,
{
    if !(0 <= pos < ts.len()) {
        no_diag()
    } else {
        match g_decl_specs(ts, pos, typedefs) {
            Some((specs, p)) => if pos < p < ts.len() {
                e_field_list(ts, p, typedefs, specs.1)
            } else {
                no_diag()
            },
            None => e_decl_specs(ts, pos, typedefs),
        }
    }
}

pub open spec fn e_field_list(ts: Seq<Token>, p: int, typedefs: Seq<Seq<char>>, base: TypeView) -> SyntaxDiag
    decreases ts.len() - p, 5nat,
{
    if !(0 <= p < ts.len()) {
        no_diag()
    } else {
        match g_declarator(ts, p, typedefs, base) {
            Some((d, q)) => if d.1 is Function {
                sd("function pointer fields are not supported"@, p)
            } else if !(p < q < ts.len()) {
                no_diag()
            } else if ts[q].kind == TokenKind::Comma {
                e_field_list(ts, q + 1, typedefs, base)
            } else if ts[q].kind == TokenKind::Semicolon {
                no_diag()
            } else {
                sd("expected ';' after struct field"@, q)
            },
            None => e_declarator(ts, p, typedefs, base),
        }
    }
}

pub open spec fn e_declarator(ts: Seq<Token>, pos: int, typedefs: Seq<Seq<char>>, base: TypeView) -> SyntaxDiag
    decreases ts.len() - pos, 2nat,
{
    e_pointers(ts, pos, typedefs, base)
}

pub open spec fn e_pointers(ts: Seq<Token>, p: int, typedefs: Seq<Seq<char>>, ty: TypeView) -> SyntaxDiag
    decreases ts.len() - p, 1nat,
{
    if !(0 <= p < ts.len()) {
        no_diag()
    } else if ts[p].kind == TokenKind::Star {
        e_pointers(ts, p + 1, typedefs, TypeView::Pointer(Box::new(ty)))
    } else {
        e_direct_declarator(ts, p, typedefs, ty)
    }
}

pub open spec fn e_direct_declarator(ts: Seq<Token>, pos: int, typedefs: Seq<Seq<char>>, base: TypeView) -> SyntaxDiag
    decreases ts.len() - pos, 0nat,
{
    if !(0 <= pos < ts.len()) {
        no_diag()
    } else if ts[pos].kind != TokenKind::Identifier {
        sd("missing identifier in declarator"@, pos)
    } else {
        e_suffixes(ts, pos + 1, typedefs, base)
    }
}

pub open spec fn e_suffixes(ts: Seq<Token>, p: int, typedefs: Seq<Seq<char>>, ty: TypeView) -> SyntaxDiag
    decreases ts.len() - p, 0nat,
{
    if !(0 <= p < ts.len()) {
        no_diag()
    } else {
        let k = ts[p].kind;
        if k == TokenKind::LBracket {
            if ts[p + 1].kind == TokenKind::RBracket {
                if p + 2 < ts.len() {
                    e_suffixes(ts, p + 2, typedefs, TypeView::Array(Box::new(ty), None))
                } else {
                    no_diag()
                }
            } else {
                match g_assignment(ts, p + 1) {
                    Some((e, q)) => if !(p < q < ts.len()) {
                        no_diag()
                    } else if ts[q].kind != TokenKind::RBracket {
                        sd("expected ']' in array declarator"@, q)
                    } else if q + 1 < ts.len() {
                        e_suffixes(ts, q + 1, typedefs, TypeView::Array(Box::new(ty), crate::grammar::array_size(e)))
                    } else {
                        no_diag()
                    },
                    None => e_assignment(ts, p + 1),
                }
            }
        } else if k == TokenKind::LParen {
            if ts[p + 1].kind == TokenKind::RParen {
                if p + 2 < ts.len() {
                    e_suffixes(ts, p + 2, typedefs, TypeView::Function(Box::new(ty), Seq::empty()))
                } else {
                    no_diag()
                }
            } else {
                match g_params(ts, p + 1, typedefs, Seq::empty()) {
                    Some((params, q)) => if !(p < q < ts.len()) {
                        no_diag()
                    } else if ts[q].kind != TokenKind::RParen {
                        sd("expected ')' after parameters"@, q)
                    } else if q + 1 < ts.len() {
                        e_suffixes(ts, q + 1, typedefs, TypeView::Function(Box::new(ty), params))
                    } else {
                        no_diag()
                    },
                    None => e_params(ts, p + 1, typedefs),
                }
            }
        } else {
            no_diag()
        }
    }
}

pub open spec fn e_params(ts: Seq<Token>, q: int, typedefs: Seq<Seq<char>>) -> SyntaxDiag
    decreases ts.len() - q, 7nat,
{
    if !(0 <= q < ts.len()) {
        no_diag()
    } else {
        match crate::grammar::g_parameter(ts, q, typedefs) {
            Some((_, q2)) => if q < q2 < ts.len() && ts[q2].kind == TokenKind::Comma {
                e_params(ts, q2 + 1, typedefs)
            } else {
                no_diag()
            },
            None => e_parameter(ts, q, typedefs),
        }
    }
}

pub open spec fn e_parameter(ts: Seq<Token>, pos: int, typedefs: Seq<Seq<char>>) -> SyntaxDiag
    decreases ts.len() - pos, 6nat,
{
    if !(0 <= pos < ts.len()) {
        no_diag()
    } else {
        match g_decl_specs(ts, pos, typedefs) {
            Some((specs, p)) => if !(pos < p < ts.len()) {
                no_diag()
            } else if ts[p].kind == TokenKind::Star || ts[p].kind == TokenKind::Identifier {
                e_declarator(ts, p, typedefs, specs.1)
            } else {
                no_diag()
            },
            None => e_decl_specs(ts, pos, typedefs),
        }
    }
}

// ---------------------------------------------------------------------------
// Initializers and declarations
// ---------------------------------------------------------------------------

pub open spec fn e_initializer(ts: Seq<Token>, pos: int) -> SyntaxDiag {
    if !(0 <= pos < ts.len()) {
        no_diag()
    } else if ts[pos].kind == TokenKind::StringLiteral {
        if literal_content(ts[pos].text@) is None {
            sd("invalid string literal"@, pos)
        } else {
            no_diag()
        }
    } else if ts[pos].kind != TokenKind::LBrace {
        if ts[pos].kind == TokenKind::Eof {
            sd("expected expression"@, pos)
        } else {
            e_assignment(ts, pos)
        }
    } else {
        e_init_list(ts, pos + 1)
    }
}

pub open spec fn e_init_list(ts: Seq<Token>, p: int) -> SyntaxDiag
    decreases ts.len() - p,
{
    if !(0 <= p < ts.len()) || ts[p].kind == TokenKind::RBrace {
        no_diag()
    } else if ts[p].kind == TokenKind::Eof {
        sd("expected expression"@, p)
    } else {
        match g_assignment(ts, p) {
            Some((_, q)) => if !(p < q < ts.len()) {
                no_diag()
            } else if ts[q].kind == TokenKind::Comma {
                e_init_list(ts, q + 1)
            } else if ts[q].kind == TokenKind::RBrace {
                e_init_list(ts, q)
            } else {
                sd("expected ',' or '}' in initializer list"@, q)
            },
            None => e_assignment(ts, p),
        }
    }
}

pub open spec fn e_init_suffix(ts: Seq<Token>, pos: int) -> SyntaxDiag {
    if !(0 <= pos < ts.len()) || ts[pos].kind != TokenKind::Assign {
        no_diag()
    } else {
        e_initializer(ts, pos + 1)
    }
}

pub open spec fn e_more_declarators(ts: Seq<Token>, p: int, typedefs: Seq<Seq<char>>, base: TypeView) -> SyntaxDiag
    decreases ts.len() - p,
{
    if !(0 <= p < ts.len()) {
        no_diag()
    } else if ts[p].kind == TokenKind::Comma {
        match g_declarator(ts, p + 1, typedefs, base) {
            Some((_, q)) => match g_init_suffix(ts, q) {
                Some((_, q2)) => if p < q2 < ts.len() {
                    e_more_declarators(ts, q2, typedefs, base)
                } else {
                    no_diag()
                },
                None => e_init_suffix(ts, q),
            },
            None => e_declarator(ts, p + 1, typedefs, base),
        }
    } else if ts[p].kind == TokenKind::Semicolon {
        no_diag()
    } else {
        sd("expected ';' after declaration"@, p)
    }
}

/// The declarators from `p` of a declaration that starts at `pos`.
pub open spec fn e_declarators(ts: Seq<Token>, p: int, typedefs: Seq<Seq<char>>, base: TypeView, pos: int) -> SyntaxDiag {
    match g_declarator(ts, p, typedefs, base) {
        Some((d, q)) => match g_init_suffix(ts, q) {
            Some((init, q2)) => match g_more_declarators(ts, q2, typedefs, base,
                seq![crate::ast::DeclaratorView { name: d.0, ty: d.1, initializer: init }]) {
                Some((ds, _)) => if has_function(ds) {
                    sd("function prototypes are not supported"@, pos)
                } else {
                    no_diag()
                },
                None => e_more_declarators(ts, q2, typedefs, base),
            },
            None => e_init_suffix(ts, q),
        },
        None => e_declarator(ts, p, typedefs, base),
    }
}

pub open spec fn e_declaration(ts: Seq<Token>, pos: int, typedefs: Seq<Seq<char>>) -> SyntaxDiag {
    match g_decl_specs(ts, pos, typedefs) {
        Some((specs, p)) => if !(pos < p < ts.len()) || ts[p].kind == TokenKind::Semicolon {
            no_diag()
        } else {
            e_declarators(ts, p, typedefs, specs.1, pos)
        },
        None => e_decl_specs(ts, pos, typedefs),
    }
}

// ---------------------------------------------------------------------------
// Statements
// ---------------------------------------------------------------------------

/// An optional expression followed by `close`, with the message for a missing `close`.
pub open spec fn e_opt_expression(ts: Seq<Token>, pos: int, close: TokenKind, message: Seq<char>) -> SyntaxDiag {
    if !(0 <= pos < ts.len()) || ts[pos].kind == close {
        no_diag()
    } else if !(pos < ts.len() - 1) {
        sd("expected expression"@, pos)
    } else {
        match g_expression(ts, pos) {
            Some((_, p)) => if !(pos < p < ts.len()) || ts[p].kind == close {
                no_diag()
            } else {
                sd(message, p)
            },
            None => e_expression(ts, pos),
        }
    }
}

pub open spec fn e_for_clauses(ts: Seq<Token>, p: int) -> SyntaxDiag {
    match g_opt_expression(ts, p, TokenKind::Semicolon) {
        Some((_, p2)) => match g_opt_expression(ts, p2, TokenKind::Semicolon) {
            Some((_, p3)) => e_opt_expression(ts, p3, TokenKind::RParen, "expected ')' after for header"@),
            None => e_opt_expression(ts, p2, TokenKind::Semicolon, "expected ';' in for header"@),
        },
        None => e_opt_expression(ts, p, TokenKind::Semicolon, "expected ';' in for header"@),
    }
}

pub open spec fn e_asm_args(ts: Seq<Token>, p: int) -> SyntaxDiag
    decreases ts.len() - p,
{
    if !(0 <= p < ts.len()) {
        no_diag()
    } else if ts[p].kind != TokenKind::StringLiteral {
        sd("expected string literal in asm arguments"@, p)
    } else if literal_content(ts[p].text@) is None {
        sd("invalid string literal"@, p)
    } else if p + 1 < ts.len() && ts[p + 1].kind == TokenKind::Comma {
        e_asm_args(ts, p + 2)
    } else {
        no_diag()
    }
}

pub open spec fn e_compound(ts: Seq<Token>, pos: int, typedefs: Seq<Seq<char>>) -> SyntaxDiag
    decreases ts.len() - pos, 0nat,
{
    if !(0 <= pos < ts.len()) {
        no_diag()
    } else if ts[pos].kind != TokenKind::LBrace {
        sd("expected '{'"@, pos)
    } else {
        e_block_items(ts, pos + 1, typedefs)
    }
}

pub open spec fn e_block_items(ts: Seq<Token>, p: int, typedefs: Seq<Seq<char>>) -> SyntaxDiag
    decreases ts.len() - p, 2nat,
{
    if !(0 <= p < ts.len()) || ts[p].kind == TokenKind::RBrace {
        no_diag()
    } else if !(p < ts.len() - 1) {
        sd("expected '}'"@, p)
    } else if starts_declaration(ts, p, typedefs) {
        match g_declaration(ts, p, typedefs) {
            Some((_, q)) => if p < q < ts.len() {
                e_block_items(ts, q, typedefs)
            } else {
                no_diag()
            },
            None => e_declaration(ts, p, typedefs),
        }
    } else {
        match g_statement(ts, p, typedefs) {
            Some((_, q)) => if p < q < ts.len() {
                e_block_items(ts, q, typedefs)
            } else {
                no_diag()
            },
            None => e_statement(ts, p, typedefs),
        }
    }
}

pub open spec fn e_statement(ts: Seq<Token>, pos: int, typedefs: Seq<Seq<char>>) -> SyntaxDiag
    decreases ts.len() - pos, 1nat,
{
    if !(0 <= pos < ts.len()) {
        no_diag()
    } else if !(pos < ts.len() - 1) {
        sd("expected statement"@, pos)
    } else {
        let k = ts[pos].kind;
        if k == TokenKind::LBrace {
            e_compound(ts, pos, typedefs)
        } else if k == TokenKind::KwIf || k == TokenKind::KwWhile {
            if ts[pos + 1].kind != TokenKind::LParen {
                sd("expected '(' after condition keyword"@, pos + 1)
            } else {
                match g_expression(ts, pos + 2) {
                    Some((_, p2)) => if !(pos + 2 < p2 < ts.len()) {
                        no_diag()
                    } else if ts[p2].kind != TokenKind::RParen {
                        sd("expected ')' after condition"@, p2)
                    } else {
                        match g_statement(ts, p2 + 1, typedefs) {
                            Some((_, p4)) => if !(p2 + 1 < p4 < ts.len()) || k == TokenKind::KwWhile
                                || ts[p4].kind != TokenKind::KwElse {
                                no_diag()
                            } else {
                                e_statement(ts, p4 + 1, typedefs)
                            },
                            None => e_statement(ts, p2 + 1, typedefs),
                        }
                    },
                    None => e_expression(ts, pos + 2),
                }
            }
        } else if k == TokenKind::KwFor {
            if ts[pos + 1].kind != TokenKind::LParen {
                sd("expected '(' after 'for'"@, pos + 1)
            } else {
                match crate::parser::g_for_clauses(ts, pos + 2) {
                    Some((_, _, _, p4)) => if pos < p4 < ts.len() {
                        e_statement(ts, p4, typedefs)
                    } else {
                        no_diag()
                    },
                    None => e_for_clauses(ts, pos + 2),
                }
            }
        } else if k == TokenKind::KwReturn {
            e_opt_expression(ts, pos + 1, TokenKind::Semicolon, "expected ';' after return"@)
        } else if k == TokenKind::KwBreak || k == TokenKind::KwContinue {
            if ts[pos + 1].kind != TokenKind::Semicolon {
                sd("expected ';' after jump statement"@, pos + 1)
            } else {
                no_diag()
            }
        } else if k == TokenKind::KwAsm {
            if ts[pos + 1].kind != TokenKind::LParen {
                sd("missing asm arguments"@, pos + 1)
            } else {
                match g_asm_args(ts, pos + 2, Seq::empty()) {
                    Some((_, p2)) => if !(pos + 2 < p2 < ts.len()) {
                        no_diag()
                    } else if ts[p2].kind != TokenKind::RParen {
                        sd("expected ')' after asm arguments"@, p2)
                    } else if ts[p2 + 1].kind != TokenKind::Semicolon {
                        sd("expected ';' after asm statement"@, p2 + 1)
                    } else {
                        no_diag()
                    },
                    None => e_asm_args(ts, pos + 2),
                }
            }
        } else {
            e_opt_expression(ts, pos, TokenKind::Semicolon, "expected ';' after expression"@)
        }
    }
}

// ---------------------------------------------------------------------------
// Translation unit
// ---------------------------------------------------------------------------

pub open spec fn e_external(ts: Seq<Token>, pos: int, typedefs: Seq<Seq<char>>) -> SyntaxDiag {
    match g_decl_specs(ts, pos, typedefs) {
        Some((specs, p)) => if !(pos < p < ts.len()) || ts[p].kind == TokenKind::Semicolon {
            no_diag()
        } else {
            match g_declarator(ts, p, typedefs, specs.1) {
                Some((d, q)) => if 0 <= q < ts.len() && d.1 is Function && ts[q].kind == TokenKind::LBrace {
                    e_compound(ts, q, typedefs)
                } else {
                    e_declarators(ts, p, typedefs, specs.1, pos)
                },
                None => e_declarator(ts, p, typedefs, specs.1),
            }
        },
        None => e_decl_specs(ts, pos, typedefs),
    }
}

pub open spec fn e_unit(ts: Seq<Token>, p: int, typedefs: Seq<Seq<char>>) -> SyntaxDiag
    decreases ts.len() - p,
{
    if !(0 <= p < ts.len()) || ts[p].kind == TokenKind::Eof {
        no_diag()
    } else {
        match g_external(ts, p, typedefs) {
            Some((item, q)) => if p < q < ts.len() {
                e_unit(ts, q, typedefs + typedef_names(item))
            } else {
                no_diag()
            },
            None => e_external(ts, p, typedefs),
        }
    }
}

/// The syntax error reported for a token stream that the grammar rejects.
pub open spec fn e_translation_unit(ts: Seq<Token>) -> SyntaxDiag {
    e_unit(ts, 0, Seq::empty())
}

} // verus!
