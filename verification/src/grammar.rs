//! The grammar of the C subset, as functions from a token stream and a position to what is
//! parsed there and where it ends (`None` where the tokens do not fit the grammar).
use vstd::prelude::*;
use crate::ast::{BinaryOp, BuiltinType, ConstExpr, DeclarationView, DeclaratorView, ExprView, ExternalView,
    FieldView, FunctionView, ItemView, ParamView, StmtView, StorageClass, TypeView, UnaryOp};
use crate::error::SourceLocation;
use crate::lexer::{Token, TokenKind};
use crate::parser::{spec_decimal_value, spec_unescape};

verus! {

pub open spec fn loc_of(ts: Seq<Token>, i: int) -> SourceLocation {
    SourceLocation { line: ts[i].line, column: ts[i].column }
}

pub open spec fn is_digits(s: Seq<char>) -> bool {
    forall|i: int| 0 <= i < s.len() ==> '0' <= #[trigger] s[i] <= '9'
}

/// The binary operator that a token denotes at a precedence level (10: `||` down to
/// 1: `* / %`).
pub open spec fn op_at_level(level: nat, k: TokenKind) -> Option<BinaryOp> {
    if level == 10 {
        if k == TokenKind::PipePipe { Some(BinaryOp::LogicalOr) } else { None }
    } else if level == 9 {
        if k == TokenKind::AmpAmp { Some(BinaryOp::LogicalAnd) } else { None }
    } else if level == 8 {
        if k == TokenKind::Pipe { Some(BinaryOp::BitwiseOr) } else { None }
    } else if level == 7 {
        if k == TokenKind::Caret { Some(BinaryOp::BitwiseXor) } else { None }
    } else if level == 6 {
        if k == TokenKind::Amp { Some(BinaryOp::BitwiseAnd) } else { None }
    } else if level == 5 {
        if k == TokenKind::EqualEqual {
            Some(BinaryOp::Equal)
        } else if k == TokenKind::NotEqual {
            Some(BinaryOp::NotEqual)
        } else {
            None
        }
    } else if level == 4 {
        if k == TokenKind::LessEqual {
            Some(BinaryOp::LessEqual)
        } else if k == TokenKind::GreaterEqual {
            Some(BinaryOp::GreaterEqual)
        } else if k == TokenKind::Less {
            Some(BinaryOp::Less)
        } else if k == TokenKind::Greater {
            Some(BinaryOp::Greater)
        } else {
            None
        }
    } else if level == 3 {
        if k == TokenKind::ShiftLeft {
            Some(BinaryOp::ShiftLeft)
        } else if k == TokenKind::ShiftRight {
            Some(BinaryOp::ShiftRight)
        } else {
            None
        }
    } else if level == 2 {
        if k == TokenKind::Plus {
            Some(BinaryOp::Add)
        } else if k == TokenKind::Minus {
            Some(BinaryOp::Subtract)
        } else {
            None
        }
    } else {
        if k == TokenKind::Star {
            Some(BinaryOp::Multiply)
        } else if k == TokenKind::Percent {
            Some(BinaryOp::Modulo)
        } else if k == TokenKind::Slash {
            Some(BinaryOp::Divide)
        } else {
            None
        }
    }
}

/// The prefix operator that a token denotes.
pub open spec fn unary_op_of(k: TokenKind) -> Option<UnaryOp> {
    if k == TokenKind::Amp {
        Some(UnaryOp::AddressOf)
    } else if k == TokenKind::Star {
        Some(UnaryOp::Dereference)
    } else if k == TokenKind::Plus {
        Some(UnaryOp::Plus)
    } else if k == TokenKind::Minus {
        Some(UnaryOp::Minus)
    } else if k == TokenKind::Bang {
        Some(UnaryOp::LogicalNot)
    } else {
        None
    }
}

/// expression := assignment (',' assignment)* ; its value is the last assignment.
pub open spec fn g_expression(ts: Seq<Token>, pos: int) -> Option<(ExprView, int)>
    decreases ts.len() - pos, 14nat,
{
    if !(0 <= pos < ts.len()) {
        None
    } else {
        match g_assignment(ts, pos) {
            Some((e, p)) => if pos < p < ts.len() {
                g_comma_rest(ts, p, e)
            } else {
                None
            },
            None => None,
        }
    }
}

/// The `, assignment` parts of an expression from `p`, `acc` being the value so far.
pub open spec fn g_comma_rest(ts: Seq<Token>, p: int, acc: ExprView) -> Option<(ExprView, int)>
    decreases ts.len() - p, 14nat,
{
    if !(0 <= p < ts.len()) {
        None
    } else if ts[p].kind == TokenKind::Comma {
        match g_assignment(ts, p + 1) {
            Some((e, q)) => if p + 1 < q < ts.len() {
                g_comma_rest(ts, q, e)
            } else {
                None
            },
            None => None,
        }
    } else {
        Some((acc, p))
    }
}

/// assignment := unary '=' assignment | logical-or expression
pub open spec fn g_assignment(ts: Seq<Token>, pos: int) -> Option<(ExprView, int)>
    decreases ts.len() - pos, 13nat,
{
    if !(0 <= pos < ts.len()) {
        None
    } else {
        match g_binary(ts, pos, 10) {
            Some((lhs, p)) => if !(pos < p < ts.len()) {
                None
            } else if ts[p].kind != TokenKind::Assign {
                Some((lhs, p))
            } else {
                match g_unary(ts, pos) {
                    Some((target, q)) => if q != p {
                        Some((lhs, p))
                    } else {
                        match g_assignment(ts, p + 1) {
                            Some((value, end)) => Some((
                                ExprView::Assignment(Box::new(target), Box::new(value), Some(loc_of(ts, pos))),
                                end,
                            )),
                            None => None,
                        }
                    },
                    None => None,
                }
            },
            None => None,
        }
    }
}

/// Left-associative binary expressions of a precedence level.
pub open spec fn g_binary(ts: Seq<Token>, pos: int, level: nat) -> Option<(ExprView, int)>
    decreases ts.len() - pos, level + 2,
{
    if !(0 <= pos < ts.len()) || level < 1 || level > 10 {
        None
    } else {
        let lhs = if level == 1 {
            g_unary(ts, pos)
        } else {
            g_binary(ts, pos, (level - 1) as nat)
        };
        match lhs {
            Some((e, p)) => if pos < p < ts.len() {
                g_binary_rest(ts, p, level, e, loc_of(ts, pos))
            } else {
                None
            },
            None => None,
        }
    }
}

/// The `op operand` parts of a binary expression from `p`; every node gets the location of
/// the expression's first token.
pub open spec fn g_binary_rest(ts: Seq<Token>, p: int, level: nat, acc: ExprView, location: SourceLocation) -> Option<(ExprView, int)>
    decreases ts.len() - p, level + 2,
{
    if !(0 <= p < ts.len()) || level < 1 || level > 10 {
        None
    } else {
        match op_at_level(level, ts[p].kind) {
            None => Some((acc, p)),
            Some(op) => {
                let rhs = if level == 1 {
                    g_unary(ts, p + 1)
                } else {
                    g_binary(ts, p + 1, (level - 1) as nat)
                };
                match rhs {
                    Some((r, q)) => if p + 1 < q < ts.len() {
                        g_binary_rest(ts, q, level, ExprView::Binary(op, Box::new(acc), Box::new(r), Some(location)), location)
                    } else {
                        None
                    },
                    None => None,
                }
            },
        }
    }
}

/// unary := ('++' | '--' | '&' | '*' | '+' | '-' | '!') unary | postfix
pub open spec fn g_unary(ts: Seq<Token>, pos: int) -> Option<(ExprView, int)>
    decreases ts.len() - pos, 2nat,
{
    if !(0 <= pos < ts.len()) {
        None
    } else if ts[pos].kind == TokenKind::PlusPlus || ts[pos].kind == TokenKind::MinusMinus {
        match g_unary(ts, pos + 1) {
            Some((e, p)) => Some((
                ExprView::IncDec(Box::new(e), ts[pos].kind == TokenKind::MinusMinus, true, Some(loc_of(ts, pos))),
                p,
            )),
            None => None,
        }
    } else {
        match unary_op_of(ts[pos].kind) {
            Some(op) => match g_unary(ts, pos + 1) {
                Some((e, p)) => Some((ExprView::Unary(op, Box::new(e), Some(loc_of(ts, pos))), p)),
                None => None,
            },
            None => g_postfix(ts, pos),
        }
    }
}

/// postfix := primary ('[' expression ']' | '(' arguments? ')' | '.' ident | '->' ident | '++' | '--')*
pub open spec fn g_postfix(ts: Seq<Token>, pos: int) -> Option<(ExprView, int)>
    decreases ts.len() - pos, 1nat,
{
    if !(0 <= pos < ts.len()) {
        None
    } else {
        match g_primary(ts, pos) {
            Some((e, p)) => if pos < p < ts.len() {
                g_postfix_rest(ts, p, e)
            } else {
                None
            },
            None => None,
        }
    }
}

/// The suffixes of a postfix expression from `p`, applied to `acc`.
pub open spec fn g_postfix_rest(ts: Seq<Token>, p: int, acc: ExprView) -> Option<(ExprView, int)>
    decreases ts.len() - p, 1nat,
{
    if !(0 <= p < ts.len()) {
        None
    } else {
        let k = ts[p].kind;
        let location = Some(loc_of(ts, p));
        if k == TokenKind::LBracket {
            match g_expression(ts, p + 1) {
                Some((index, q)) => if p + 1 < q < ts.len() - 1 && ts[q].kind == TokenKind::RBracket {
                    g_postfix_rest(ts, q + 1, ExprView::Index(Box::new(acc), Box::new(index), location))
                } else {
                    None
                },
                None => None,
            }
        } else if k == TokenKind::LParen {
            if p + 2 < ts.len() && ts[p + 1].kind == TokenKind::RParen {
                g_postfix_rest(ts, p + 2, ExprView::Call(Box::new(acc), Seq::empty(), location))
            } else {
                match g_args(ts, p + 1, Seq::empty()) {
                    Some((args, q)) => if p + 1 < q < ts.len() - 1 && ts[q].kind == TokenKind::RParen {
                        g_postfix_rest(ts, q + 1, ExprView::Call(Box::new(acc), args, location))
                    } else {
                        None
                    },
                    None => None,
                }
            }
        } else if k == TokenKind::Dot || k == TokenKind::Arrow {
            if p + 2 < ts.len() && ts[p + 1].kind == TokenKind::Identifier {
                g_postfix_rest(
                    ts,
                    p + 2,
                    ExprView::MemberAccess(Box::new(acc), ts[p + 1].text@, k == TokenKind::Arrow, location),
                )
            } else {
                None
            }
        } else if k == TokenKind::PlusPlus || k == TokenKind::MinusMinus {
            g_postfix_rest(ts, p + 1, ExprView::IncDec(Box::new(acc), k == TokenKind::MinusMinus, false, location))
        } else {
            Some((acc, p))
        }
    }
}

/// Call arguments from `q`: assignments separated by commas, appended to `acc`; ends
/// before the token after the last argument.
pub open spec fn g_args(ts: Seq<Token>, q: int, acc: Seq<ExprView>) -> Option<(Seq<ExprView>, int)>
    decreases ts.len() - q, 15nat,
{
    if !(0 <= q < ts.len()) {
        None
    } else {
        match g_assignment(ts, q) {
            Some((a, q2)) => if q < q2 < ts.len() {
                if ts[q2].kind == TokenKind::Comma {
                    g_args(ts, q2 + 1, acc.push(a))
                } else {
                    Some((acc.push(a), q2))
                }
            } else {
                None
            },
            None => None,
        }
    }
}

/// primary := identifier | integer-constant | '(' expression ')'
pub open spec fn g_primary(ts: Seq<Token>, pos: int) -> Option<(ExprView, int)>
    decreases ts.len() - pos, 0nat,
{
    if !(0 <= pos < ts.len() - 1) {
        None
    } else {
        let k = ts[pos].kind;
        let t = ts[pos].text@;
        if k == TokenKind::Identifier {
            Some((ExprView::Identifier(t, Some(loc_of(ts, pos))), pos + 1))
        } else if k == TokenKind::IntConstant {
            if is_digits(t) && spec_decimal_value(t) <= i64::MAX {
                Some((ExprView::IntegerLiteral(spec_decimal_value(t) as i64, Some(loc_of(ts, pos))), pos + 1))
            } else {
                None
            }
        } else if k == TokenKind::LParen {
            match g_expression(ts, pos + 1) {
                Some((e, p)) => if pos + 1 < p < ts.len() - 1 && ts[p].kind == TokenKind::RParen {
                    Some((e, p + 1))
                } else {
                    None
                },
                None => None,
            }
        } else {
            None
        }
    }
}

// ---------------------------------------------------------------------------
// Types and declarators
// ---------------------------------------------------------------------------

/// Declaration specifiers: storage classes and exactly one type, from `pos`.
pub open spec fn g_decl_specs(ts: Seq<Token>, pos: int, typedefs: Seq<Seq<char>>) -> Option<((Option<StorageClass>, TypeView), int)>
    decreases ts.len() - pos, 4nat,
{
    g_specs_rest(ts, pos, typedefs, None, None)
}

/// The rest of declaration specifiers from `p`, with the storage class and type so far (a
/// later type replaces an earlier one; a typedef name counts only where no type came yet).
pub open spec fn g_specs_rest(
    ts: Seq<Token>,
    p: int,
    typedefs: Seq<Seq<char>>,
    sc: Option<StorageClass>,
    base: Option<TypeView>,
) -> Option<((Option<StorageClass>, TypeView), int)>
    decreases ts.len() - p, 3nat,
{
    if !(0 <= p < ts.len() - 1) {
        match base {
            Some(t) => if 0 <= p < ts.len() { Some(((sc, t), p)) } else { None },
            None => None,
        }
    } else {
        let k = ts[p].kind;
        if k == TokenKind::KwStatic {
            g_specs_rest(ts, p + 1, typedefs, Some(StorageClass::Static), base)
        } else if k == TokenKind::KwTypedef {
            g_specs_rest(ts, p + 1, typedefs, Some(StorageClass::Typedef), base)
        } else if k == TokenKind::KwInt {
            g_specs_rest(ts, p + 1, typedefs, sc, Some(TypeView::Builtin(BuiltinType::Int)))
        } else if k == TokenKind::KwChar {
            g_specs_rest(ts, p + 1, typedefs, sc, Some(TypeView::Builtin(BuiltinType::Char)))
        } else if k == TokenKind::KwVoid {
            g_specs_rest(ts, p + 1, typedefs, sc, Some(TypeView::Builtin(BuiltinType::Void)))
        } else if k == TokenKind::KwStruct {
            match g_struct(ts, p, typedefs) {
                Some((t, q)) => if p < q < ts.len() {
                    g_specs_rest(ts, q, typedefs, sc, Some(t))
                } else {
                    None
                },
                None => None,
            }
        } else if k == TokenKind::KwEnum {
            match g_enum(ts, p) {
                Some((t, q)) => if p < q < ts.len() {
                    g_specs_rest(ts, q, typedefs, sc, Some(t))
                } else {
                    None
                },
                None => None,
            }
        } else if k == TokenKind::Identifier && base is None && typedefs.contains(ts[p].text@) {
            g_specs_rest(ts, p + 1, typedefs, sc, Some(TypeView::Alias(ts[p].text@)))
        } else {
            match base {
                Some(t) => Some(((sc, t), p)),
                None => None,
            }
        }
    }
}

/// enum-specifier := 'enum' identifier ('{' enumerator (',' enumerator)* ','? '}')?
pub open spec fn g_enum(ts: Seq<Token>, pos: int) -> Option<(TypeView, int)> {
    if !(0 <= pos < ts.len() - 2) || ts[pos].kind != TokenKind::KwEnum || ts[pos + 1].kind != TokenKind::Identifier {
        None
    } else {
        let name = ts[pos + 1].text@;
        let q = pos + 2;
        if ts[q].kind != TokenKind::LBrace {
            Some((TypeView::Enum(name, Seq::empty()), q))
        } else {
            match g_enumerators(ts, q + 1, 0, Seq::empty()) {
                Some((es, end)) => Some((TypeView::Enum(name, es), end)),
                None => None,
            }
        }
    }
}

/// enumerator-value := integer-constant | '-' integer-constant
pub open spec fn g_enum_value(ts: Seq<Token>, p: int) -> Option<(int, int)> {
    if !(0 <= p < ts.len() - 1) {
        None
    } else if ts[p].kind == TokenKind::IntConstant {
        let t = ts[p].text@;
        if is_digits(t) && spec_decimal_value(t) <= i64::MAX {
            Some((spec_decimal_value(t) as int, p + 1))
        } else {
            None
        }
    } else if ts[p].kind == TokenKind::Minus && p + 1 < ts.len() - 1 && ts[p + 1].kind == TokenKind::IntConstant {
        let t = ts[p + 1].text@;
        if is_digits(t) && spec_decimal_value(t) <= i64::MAX {
            Some((-(spec_decimal_value(t) as int), p + 2))
        } else {
            None
        }
    } else {
        None
    }
}

/// Enumerators from `k` up to and including the closing brace: each takes its given value,
/// or one more than the one before it (the first, 0).
pub open spec fn g_enumerators(ts: Seq<Token>, k: int, next: int, acc: Seq<(Seq<char>, i64)>) -> Option<(Seq<(Seq<char>, i64)>, int)>
    decreases ts.len() - k,
{
    if !(0 <= k < ts.len() - 1) {
        None
    } else if ts[k].kind == TokenKind::RBrace {
        Some((acc, k + 1))
    } else if ts[k].kind != TokenKind::Identifier {
        None
    } else {
        let name = ts[k].text@;
        let vk = if ts[k + 1].kind == TokenKind::Assign { g_enum_value(ts, k + 2) } else { Some((next, k + 1)) };
        match vk {
            Some((v, k2)) => if !(i64::MIN <= v <= i64::MAX) || !(k < k2 < ts.len() - 1) {
                None
            } else {
                let acc2 = acc.push((name, v as i64));
                if ts[k2].kind == TokenKind::Comma {
                    g_enumerators(ts, k2 + 1, v + 1, acc2)
                } else if ts[k2].kind == TokenKind::RBrace {
                    Some((acc2, k2 + 1))
                } else {
                    None
                }
            },
            None => None,
        }
    }
}

/// struct-specifier := 'struct' identifier ('{' struct-declaration* '}')?
pub open spec fn g_struct(ts: Seq<Token>, pos: int, typedefs: Seq<Seq<char>>) -> Option<(TypeView, int)>
    decreases ts.len() - pos, 2nat,
{
    if !(0 <= pos < ts.len() - 2) || ts[pos].kind != TokenKind::KwStruct || ts[pos + 1].kind != TokenKind::Identifier {
        None
    } else {
        let name = ts[pos + 1].text@;
        let q = pos + 2;
        if ts[q].kind != TokenKind::LBrace {
            Some((TypeView::Struct(name, Seq::empty()), q))
        } else {
            match g_fields(ts, q + 1, typedefs, Seq::empty()) {
                Some((fields, end)) => Some((TypeView::Struct(name, fields), end)),
                None => None,
            }
        }
    }
}

/// Struct declarations from `k` up to and including the closing brace.
pub open spec fn g_fields(ts: Seq<Token>, k: int, typedefs: Seq<Seq<char>>, acc: Seq<FieldView>) -> Option<(Seq<FieldView>, int)>
    decreases ts.len() - k, 6nat,
{
    if !(0 <= k < ts.len() - 1) {
        None
    } else if ts[k].kind == TokenKind::RBrace {
        Some((acc, k + 1))
    } else {
        match g_struct_declaration(ts, k, typedefs) {
            Some((fs, k2)) => if k < k2 < ts.len() {
                g_fields(ts, k2, typedefs, acc + fs)
            } else {
                None
            },
            None => None,
        }
    }
}

/// struct-declaration := declaration-specifiers declarator (',' declarator)* ';'
pub open spec fn g_struct_declaration(ts: Seq<Token>, pos: int, typedefs: Seq<Seq<char>>) -> Option<(Seq<FieldView>, int)>
    decreases ts.len() - pos, 5nat,
{
    if !(0 <= pos < ts.len()) {
        None
    } else {
        match g_decl_specs(ts, pos, typedefs) {
            Some((specs, p)) => if pos < p < ts.len() {
                g_field_list(ts, p, typedefs, specs.1, Seq::empty())
            } else {
                None
            },
            None => None,
        }
    }
}

/// Field declarators from `p` sharing the base type, up to and including the `;`.
pub open spec fn g_field_list(ts: Seq<Token>, p: int, typedefs: Seq<Seq<char>>, base: TypeView, acc: Seq<FieldView>) -> Option<(Seq<FieldView>, int)>
    decreases ts.len() - p, 5nat,
{
    if !(0 <= p < ts.len()) {
        None
    } else {
        match g_declarator(ts, p, typedefs, base) {
            Some((d, q)) => if !(p < q < ts.len() - 1) || d.1 is Function {
                None
            } else {
                let acc2 = acc.push(FieldView { name: d.0, ty: d.1 });
                if ts[q].kind == TokenKind::Comma {
                    g_field_list(ts, q + 1, typedefs, base, acc2)
                } else if ts[q].kind == TokenKind::Semicolon {
                    Some((acc2, q + 1))
                } else {
                    None
                }
            },
            None => None,
        }
    }
}

/// declarator := '*'* direct-declarator ; the name, the composed type and the location of
/// the declarator's first token.
pub open spec fn g_declarator(ts: Seq<Token>, pos: int, typedefs: Seq<Seq<char>>, base: TypeView) -> Option<((Seq<char>, TypeView, SourceLocation), int)>
    decreases ts.len() - pos, 2nat,
{
    if !(0 <= pos < ts.len()) {
        None
    } else {
        match g_pointers(ts, pos, typedefs, base) {
            Some((d, q)) => Some(((d.0, d.1, loc_of(ts, pos)), q)),
            None => None,
        }
    }
}

/// Leading `*`s wrap the type in pointers; then the direct declarator.
pub open spec fn g_pointers(ts: Seq<Token>, p: int, typedefs: Seq<Seq<char>>, ty: TypeView) -> Option<((Seq<char>, TypeView), int)>
    decreases ts.len() - p, 1nat,
{
    if !(0 <= p < ts.len()) {
        None
    } else if ts[p].kind == TokenKind::Star {
        g_pointers(ts, p + 1, typedefs, TypeView::Pointer(Box::new(ty)))
    } else {
        g_direct_declarator(ts, p, typedefs, ty)
    }
}

/// direct-declarator := identifier ('[' assignment? ']' | '(' parameter-list? ')')*
pub open spec fn g_direct_declarator(ts: Seq<Token>, pos: int, typedefs: Seq<Seq<char>>, base: TypeView) -> Option<((Seq<char>, TypeView), int)>
    decreases ts.len() - pos, 0nat,
{
    if !(0 <= pos < ts.len() - 1) || ts[pos].kind != TokenKind::Identifier {
        None
    } else {
        g_suffixes(ts, pos + 1, typedefs, ts[pos].text@, base)
    }
}

/// The size of an array declarator: the value of a literal, none otherwise.
pub open spec fn array_size(e: ExprView) -> Option<ConstExpr> {
    match e {
        ExprView::IntegerLiteral(v, _) => Some(ConstExpr { value: v }),
        _ => None,
    }
}

/// Array and function suffixes of a declarator from `p`.
pub open spec fn g_suffixes(ts: Seq<Token>, p: int, typedefs: Seq<Seq<char>>, name: Seq<char>, ty: TypeView) -> Option<((Seq<char>, TypeView), int)>
    decreases ts.len() - p, 0nat,
{
    if !(0 <= p < ts.len() - 1) {
        if 0 <= p < ts.len() { Some(((name, ty), p)) } else { None }
    } else {
        let k = ts[p].kind;
        if k == TokenKind::LBracket {
            let inner: Option<(Option<ConstExpr>, int)> = if ts[p + 1].kind == TokenKind::RBracket {
                Some((None, p + 1))
            } else {
                match g_assignment(ts, p + 1) {
                    Some((e, q)) => Some((array_size(e), q)),
                    None => None,
                }
            };
            match inner {
                Some((size, q)) => if p < q < ts.len() - 1 && ts[q].kind == TokenKind::RBracket {
                    g_suffixes(ts, q + 1, typedefs, name, TypeView::Array(Box::new(ty), size))
                } else {
                    None
                },
                None => None,
            }
        } else if k == TokenKind::LParen {
            let inner: Option<(Seq<ParamView>, int)> = if ts[p + 1].kind == TokenKind::RParen {
                Some((Seq::empty(), p + 1))
            } else {
                g_params(ts, p + 1, typedefs, Seq::empty())
            };
            match inner {
                Some((params, q)) => if p < q < ts.len() - 1 && ts[q].kind == TokenKind::RParen {
                    g_suffixes(ts, q + 1, typedefs, name, TypeView::Function(Box::new(ty), params))
                } else {
                    None
                },
                None => None,
            }
        } else {
            Some(((name, ty), p))
        }
    }
}

/// Parameter declarations from `q` separated by commas, appended to `acc`.
pub open spec fn g_params(ts: Seq<Token>, q: int, typedefs: Seq<Seq<char>>, acc: Seq<ParamView>) -> Option<(Seq<ParamView>, int)>
    decreases ts.len() - q, 7nat,
{
    if !(0 <= q < ts.len()) {
        None
    } else {
        match g_parameter(ts, q, typedefs) {
            Some((prm, q2)) => if q < q2 < ts.len() {
                if ts[q2].kind == TokenKind::Comma {
                    g_params(ts, q2 + 1, typedefs, acc.push(prm))
                } else {
                    Some((acc.push(prm), q2))
                }
            } else {
                None
            },
            None => None,
        }
    }
}

/// parameter-declaration := declaration-specifiers declarator?
pub open spec fn g_parameter(ts: Seq<Token>, pos: int, typedefs: Seq<Seq<char>>) -> Option<(ParamView, int)>
    decreases ts.len() - pos, 6nat,
{
    if !(0 <= pos < ts.len()) {
        None
    } else {
        match g_decl_specs(ts, pos, typedefs) {
            Some((specs, p)) => if !(pos < p < ts.len()) {
                None
            } else if ts[p].kind == TokenKind::Star || ts[p].kind == TokenKind::Identifier {
                match g_declarator(ts, p, typedefs, specs.1) {
                    Some((d, q)) => Some((ParamView { name: Some(d.0), ty: d.1, location: Some(d.2) }, q)),
                    None => None,
                }
            } else {
                Some((ParamView { name: None, ty: specs.1, location: Some(loc_of(ts, pos)) }, p))
            },
            None => None,
        }
    }
}

// ---------------------------------------------------------------------------
// Initializers and declarations
// ---------------------------------------------------------------------------

/// The characters of a string literal token between its quotes, if it is quoted.
pub open spec fn literal_content(t: Seq<char>) -> Option<Seq<char>> {
    if t.len() >= 2 && t[0] == '"' && t.last() == '"' {
        Some(t.subrange(1, t.len() - 1))
    } else {
        None
    }
}

/// The array initializer that a string literal stands for: its characters, then a zero.
pub open spec fn string_initializer(text: Seq<char>, location: SourceLocation) -> ExprView {
    ExprView::ArrayInitializer(
        Seq::new(text.len(), |i: int| ExprView::IntegerLiteral(text[i] as u32 as i64, None)).push(
            ExprView::IntegerLiteral(0, None),
        ),
        Some(location),
    )
}

/// initializer := '{' (assignment (',' assignment)* ','?)? '}' | string-literal | assignment
pub open spec fn g_initializer(ts: Seq<Token>, pos: int) -> Option<(ExprView, int)> {
    if !(0 <= pos < ts.len() - 1) {
        None
    } else if ts[pos].kind == TokenKind::StringLiteral {
        match literal_content(ts[pos].text@) {
            Some(c) => Some((string_initializer(spec_unescape(c), loc_of(ts, pos)), pos + 1)),
            None => None,
        }
    } else if ts[pos].kind == TokenKind::LBrace {
        match g_init_list(ts, pos + 1, Seq::empty()) {
            Some((elements, end)) => Some((ExprView::ArrayInitializer(elements, Some(loc_of(ts, pos))), end)),
            None => None,
        }
    } else {
        g_assignment(ts, pos)
    }
}

/// Elements of a brace initializer from `p`, up to and including the closing brace.
pub open spec fn g_init_list(ts: Seq<Token>, p: int, acc: Seq<ExprView>) -> Option<(Seq<ExprView>, int)>
    decreases ts.len() - p,
{
    if !(0 <= p < ts.len() - 1) {
        None
    } else if ts[p].kind == TokenKind::RBrace {
        Some((acc, p + 1))
    } else {
        match g_assignment(ts, p) {
            Some((e, q)) => if !(p < q < ts.len()) {
                None
            } else if ts[q].kind == TokenKind::Comma {
                g_init_list(ts, q + 1, acc.push(e))
            } else if ts[q].kind == TokenKind::RBrace {
                g_init_list(ts, q, acc.push(e))
            } else {
                None
            },
            None => None,
        }
    }
}

/// An optional `= initializer` at `pos`.
pub open spec fn g_init_suffix(ts: Seq<Token>, pos: int) -> Option<(Option<ExprView>, int)> {
    if !(0 <= pos < ts.len()) {
        None
    } else if ts[pos].kind != TokenKind::Assign {
        Some((None, pos))
    } else {
        match g_initializer(ts, pos + 1) {
            Some((e, p)) => Some((Some(e), p)),
            None => None,
        }
    }
}

/// The declarators of a declaration after its first one, from `p` up to and including `;`.
pub open spec fn g_more_declarators(ts: Seq<Token>, p: int, typedefs: Seq<Seq<char>>, base: TypeView, acc: Seq<DeclaratorView>) -> Option<(Seq<DeclaratorView>, int)>
    decreases ts.len() - p,
{
    if !(0 <= p < ts.len() - 1) {
        None
    } else if ts[p].kind == TokenKind::Comma {
        match g_declarator(ts, p + 1, typedefs, base) {
            Some((d, q)) => match g_init_suffix(ts, q) {
                Some((init, q2)) => if p < q2 < ts.len() {
                    g_more_declarators(ts, q2, typedefs, base, acc.push(DeclaratorView { name: d.0, ty: d.1, initializer: init }))
                } else {
                    None
                },
                None => None,
            },
            None => None,
        }
    } else if ts[p].kind == TokenKind::Semicolon {
        Some((acc, p + 1))
    } else {
        None
    }
}

/// Whether some declarator declares a function (a prototype, which the subset rejects).
pub open spec fn has_function(ds: Seq<DeclaratorView>) -> bool {
    exists|i: int| 0 <= i < ds.len() && ds[i].ty is Function
}

/// The declarators of a declaration from its first declarator at `p`, with the base type.
pub open spec fn g_declarators(ts: Seq<Token>, p: int, typedefs: Seq<Seq<char>>, base: TypeView) -> Option<(Seq<DeclaratorView>, int)> {
    match g_declarator(ts, p, typedefs, base) {
        Some((d, q)) => match g_init_suffix(ts, q) {
            Some((init, q2)) => match g_more_declarators(
                ts,
                q2,
                typedefs,
                base,
                seq![DeclaratorView { name: d.0, ty: d.1, initializer: init }],
            ) {
                Some((ds, end)) => if has_function(ds) {
                    None
                } else {
                    Some((ds, end))
                },
                None => None,
            },
            None => None,
        },
        None => None,
    }
}

/// declaration := declaration-specifiers (init-declarator (',' init-declarator)*)? ';'
pub open spec fn g_declaration(ts: Seq<Token>, pos: int, typedefs: Seq<Seq<char>>) -> Option<(DeclarationView, int)> {
    match g_decl_specs(ts, pos, typedefs) {
        Some((specs, p)) => if !(pos < p < ts.len()) {
            None
        } else if ts[p].kind == TokenKind::Semicolon {
            if p + 1 < ts.len() {
                Some((DeclarationView { storage_class: specs.0, declarators: Seq::empty() }, p + 1))
            } else {
                None
            }
        } else {
            match g_declarators(ts, p, typedefs, specs.1) {
                Some((ds, end)) => Some((DeclarationView { storage_class: specs.0, declarators: ds }, end)),
                None => None,
            }
        },
        None => None,
    }
}

// ---------------------------------------------------------------------------
// Statements
// ---------------------------------------------------------------------------

/// Whether the token at `p` begins a declaration.
pub open spec fn starts_declaration(ts: Seq<Token>, p: int, typedefs: Seq<Seq<char>>) -> bool {
    let k = ts[p].kind;
    k == TokenKind::KwInt || k == TokenKind::KwChar || k == TokenKind::KwVoid || k == TokenKind::KwStruct
        || k == TokenKind::KwEnum
        || k == TokenKind::KwStatic || k == TokenKind::KwTypedef
        || (k == TokenKind::Identifier && typedefs.contains(ts[p].text@))
}

/// An optional expression followed by the token `close`.
pub open spec fn g_opt_expression(ts: Seq<Token>, pos: int, close: TokenKind) -> Option<(Option<ExprView>, int)> {
    if !(0 <= pos < ts.len() - 1) {
        None
    } else if ts[pos].kind == close {
        Some((None, pos + 1))
    } else {
        match g_expression(ts, pos) {
            Some((e, p)) => if pos < p < ts.len() - 1 && ts[p].kind == close {
                Some((Some(e), p + 1))
            } else {
                None
            },
            None => None,
        }
    }
}

/// The string literals of an inline assembly statement from `p`, unescaped and appended to
/// `acc`; ends after the last literal.
pub open spec fn g_asm_args(ts: Seq<Token>, p: int, acc: Seq<Seq<char>>) -> Option<(Seq<Seq<char>>, int)>
    decreases ts.len() - p,
{
    if !(0 <= p < ts.len() - 1) || ts[p].kind != TokenKind::StringLiteral {
        None
    } else {
        match literal_content(ts[p].text@) {
            Some(c) => {
                let acc2 = acc.push(spec_unescape(c));
                if ts[p + 1].kind == TokenKind::Comma {
                    g_asm_args(ts, p + 2, acc2)
                } else {
                    Some((acc2, p + 1))
                }
            },
            None => None,
        }
    }
}

/// compound-statement := '{' (declaration | statement)* '}'
pub open spec fn g_compound(ts: Seq<Token>, pos: int, typedefs: Seq<Seq<char>>) -> Option<(Seq<ItemView>, int)>
    decreases ts.len() - pos, 0nat,
{
    if !(0 <= pos < ts.len() - 1) || ts[pos].kind != TokenKind::LBrace {
        None
    } else {
        g_block_items(ts, pos + 1, typedefs, Seq::empty())
    }
}

/// Block items from `p`, appended to `acc`, up to and including the closing brace.
pub open spec fn g_block_items(ts: Seq<Token>, p: int, typedefs: Seq<Seq<char>>, acc: Seq<ItemView>) -> Option<(Seq<ItemView>, int)>
    decreases ts.len() - p, 2nat,
{
    if !(0 <= p < ts.len() - 1) {
        None
    } else if ts[p].kind == TokenKind::RBrace {
        Some((acc, p + 1))
    } else if starts_declaration(ts, p, typedefs) {
        match g_declaration(ts, p, typedefs) {
            Some((d, q)) => if p < q < ts.len() {
                g_block_items(ts, q, typedefs, acc.push(ItemView::Declaration(d)))
            } else {
                None
            },
            None => None,
        }
    } else {
        match g_statement(ts, p, typedefs) {
            Some((st, q)) => if p < q < ts.len() {
                g_block_items(ts, q, typedefs, acc.push(ItemView::Statement(st)))
            } else {
                None
            },
            None => None,
        }
    }
}

/// A statement at `pos`; `break` and `continue` become an empty `return`.
pub open spec fn g_statement(ts: Seq<Token>, pos: int, typedefs: Seq<Seq<char>>) -> Option<(StmtView, int)>
    decreases ts.len() - pos, 1nat,
{
    if !(0 <= pos < ts.len() - 1) {
        None
    } else {
        let k = ts[pos].kind;
        if k == TokenKind::LBrace {
            match g_compound(ts, pos, typedefs) {
                Some((items, p)) => Some((StmtView::Block(items), p)),
                None => None,
            }
        } else if k == TokenKind::KwIf || k == TokenKind::KwWhile {
            if ts[pos + 1].kind != TokenKind::LParen {
                None
            } else {
                match g_expression(ts, pos + 2) {
                    Some((cond, p2)) => if !(pos + 2 < p2 < ts.len() - 1) || ts[p2].kind != TokenKind::RParen {
                        None
                    } else {
                        match g_statement(ts, p2 + 1, typedefs) {
                            Some((body, p4)) => if !(p2 + 1 < p4 < ts.len()) {
                                None
                            } else if k == TokenKind::KwWhile {
                                Some((StmtView::While(cond, Box::new(body)), p4))
                            } else if ts[p4].kind == TokenKind::KwElse {
                                match g_statement(ts, p4 + 1, typedefs) {
                                    Some((else_branch, p5)) => Some((
                                        StmtView::If(cond, Box::new(body), Some(Box::new(else_branch))),
                                        p5,
                                    )),
                                    None => None,
                                }
                            } else {
                                Some((StmtView::If(cond, Box::new(body), None), p4))
                            },
                            None => None,
                        }
                    },
                    None => None,
                }
            }
        } else if k == TokenKind::KwFor {
            if ts[pos + 1].kind != TokenKind::LParen {
                None
            } else {
                match g_opt_expression(ts, pos + 2, TokenKind::Semicolon) {
                    Some((init, p2)) => match g_opt_expression(ts, p2, TokenKind::Semicolon) {
                        Some((cond, p3)) => match g_opt_expression(ts, p3, TokenKind::RParen) {
                            Some((update, p4)) => if pos < p4 < ts.len() {
                                match g_statement(ts, p4, typedefs) {
                                    Some((body, p5)) => Some((StmtView::For(init, cond, update, Box::new(body)), p5)),
                                    None => None,
                                }
                            } else {
                                None
                            },
                            None => None,
                        },
                        None => None,
                    },
                    None => None,
                }
            }
        } else if k == TokenKind::KwReturn {
            match g_opt_expression(ts, pos + 1, TokenKind::Semicolon) {
                Some((e, p)) => Some((StmtView::Return(e), p)),
                None => None,
            }
        } else if k == TokenKind::KwBreak || k == TokenKind::KwContinue {
            if pos + 2 < ts.len() && ts[pos + 1].kind == TokenKind::Semicolon {
                Some((StmtView::Return(None), pos + 2))
            } else {
                None
            }
        } else if k == TokenKind::KwAsm {
            if ts[pos + 1].kind != TokenKind::LParen {
                None
            } else {
                match g_asm_args(ts, pos + 2, Seq::empty()) {
                    Some((texts, p2)) => if pos + 2 < p2 < ts.len() - 2 && ts[p2].kind == TokenKind::RParen
                        && ts[p2 + 1].kind == TokenKind::Semicolon {
                        Some((StmtView::InlineAsm(texts), p2 + 2))
                    } else {
                        None
                    },
                    None => None,
                }
            }
        } else {
            match g_opt_expression(ts, pos, TokenKind::Semicolon) {
                Some((e, p)) => Some((StmtView::Expression(e), p)),
                None => None,
            }
        }
    }
}

// ---------------------------------------------------------------------------
// Translation unit
// ---------------------------------------------------------------------------

/// One external declaration at `pos`: a function definition or a declaration.
pub open spec fn g_external(ts: Seq<Token>, pos: int, typedefs: Seq<Seq<char>>) -> Option<(ExternalView, int)> {
    match g_decl_specs(ts, pos, typedefs) {
        Some((specs, p)) => if !(pos < p < ts.len()) {
            None
        } else if ts[p].kind == TokenKind::Semicolon {
            if p + 1 < ts.len() {
                Some((
                    if specs.0 is None && (specs.1 is Struct || specs.1 is Enum) {
                        ExternalView::TypeDeclaration(specs.1)
                    } else {
                        ExternalView::GlobalDeclaration(DeclarationView { storage_class: specs.0, declarators: Seq::empty() })
                    },
                    p + 1,
                ))
            } else {
                None
            }
        } else {
            match g_declarator(ts, p, typedefs, specs.1) {
                Some((d, q)) => if 0 <= q < ts.len() && d.1 is Function && ts[q].kind == TokenKind::LBrace {
                    match g_compound(ts, q, typedefs) {
                        Some((body, end)) => match d.1 {
                            TypeView::Function(rt, params) => Some((
                                ExternalView::Function(FunctionView { name: d.0, return_type: *rt, params, body }),
                                end,
                            )),
                            _ => None,
                        },
                        None => None,
                    }
                } else {
                    match g_declarators(ts, p, typedefs, specs.1) {
                        Some((ds, end)) => Some((
                            ExternalView::GlobalDeclaration(DeclarationView { storage_class: specs.0, declarators: ds }),
                            end,
                        )),
                        None => None,
                    }
                },
                None => None,
            }
        },
        None => None,
    }
}

/// The names that a top-level item adds to the typedef names: those of a `typedef`
/// declaration's declarators.
pub open spec fn typedef_names(item: ExternalView) -> Seq<Seq<char>> {
    match item {
        ExternalView::GlobalDeclaration(d) => if d.storage_class == Some(StorageClass::Typedef) {
            d.declarators.map_values(|x: DeclaratorView| x.name)
        } else {
            Seq::empty()
        },
        _ => Seq::empty(),
    }
}

/// External declarations from `p` to the end of input, appended to `acc`.
pub open spec fn g_unit(ts: Seq<Token>, p: int, typedefs: Seq<Seq<char>>, acc: Seq<ExternalView>) -> Option<Seq<ExternalView>>
    decreases ts.len() - p,
{
    if !(0 <= p < ts.len()) {
        None
    } else if ts[p].kind == TokenKind::Eof {
        Some(acc)
    } else {
        match g_external(ts, p, typedefs) {
            Some((item, q)) => if p < q < ts.len() {
                g_unit(ts, q, typedefs + typedef_names(item), acc.push(item))
            } else {
                None
            },
            None => None,
        }
    }
}

/// The translation unit that a token stream spells, if any.
pub open spec fn g_translation_unit(ts: Seq<Token>) -> Option<Seq<ExternalView>> {
    g_unit(ts, 0, Seq::empty(), Seq::empty())
}

} // verus!
