//! The grammar reads a token only through its kind, text, line and column, so token streams
//! that agree on those spell the same translation unit.
use vstd::prelude::*;
use crate::ast::{DeclaratorView, ExprView, FieldView, ItemView, ParamView, StorageClass, TypeView};
use crate::error::SourceLocation;
use crate::grammar::{g_args, g_asm_args, g_assignment, g_binary, g_binary_rest, g_block_items, g_comma_rest,
    g_compound, g_decl_specs, g_declaration, g_declarator, g_declarators, g_direct_declarator, g_expression,
    g_external, g_field_list, g_fields, g_init_list, g_init_suffix, g_initializer, g_more_declarators,
    g_opt_expression, g_parameter, g_params, g_pointers, g_postfix, g_postfix_rest, g_primary, g_specs_rest,
    g_statement, g_struct, g_struct_declaration, g_suffixes, g_translation_unit, g_unary, g_unit, op_at_level,
    typedef_names, g_enum, g_enum_value, g_enumerators};
use crate::lexer::{Token, TokenKind};

verus! {

/// Two token streams that agree on every token's kind, text, line and column.
pub open spec fn same_tokens(a: Seq<Token>, b: Seq<Token>) -> bool {
    &&& a.len() == b.len()
    &&& forall|i: int| #![trigger a[i]] #![trigger b[i]] 0 <= i < a.len() ==> {
        &&& a[i].kind == b[i].kind
        &&& a[i].text@ == b[i].text@
        &&& a[i].line == b[i].line
        &&& a[i].column == b[i].column
    }
}

proof fn same_expression(a: Seq<Token>, b: Seq<Token>, pos: int)
    requires
        same_tokens(a, b),
    ensures
        g_expression(a, pos) == g_expression(b, pos),
    decreases a.len() - pos, 14nat,
{
    if 0 <= pos < a.len() {
        same_assignment(a, b, pos);
        match g_assignment(a, pos) {
            Some((e, p)) => if pos < p < a.len() {
                same_comma_rest(a, b, p, e);
            },
            None => {},
        }
    }
}

proof fn same_comma_rest(a: Seq<Token>, b: Seq<Token>, p: int, acc: ExprView)
    requires
        same_tokens(a, b),
    ensures
        g_comma_rest(a, p, acc) == g_comma_rest(b, p, acc),
    decreases a.len() - p, 14nat,
{
    if 0 <= p < a.len() && a[p].kind == TokenKind::Comma {
        same_assignment(a, b, p + 1);
        match g_assignment(a, p + 1) {
            Some((e, q)) => if p + 1 < q < a.len() {
                same_comma_rest(a, b, q, e);
            },
            None => {},
        }
    }
}

proof fn same_assignment(a: Seq<Token>, b: Seq<Token>, pos: int)
    requires
        same_tokens(a, b),
    ensures
        g_assignment(a, pos) == g_assignment(b, pos),
    decreases a.len() - pos, 13nat,
{
    if 0 <= pos < a.len() {
        same_binary(a, b, pos, 10);
        match g_binary(a, pos, 10) {
            Some((_, p)) => if pos < p < a.len() && a[p].kind == TokenKind::Assign {
                same_unary(a, b, pos);
                match g_unary(a, pos) {
                    Some((_, q)) => if q == p {
                        same_assignment(a, b, p + 1);
                    },
                    None => {},
                }
            },
            None => {},
        }
    }
}

proof fn same_binary(a: Seq<Token>, b: Seq<Token>, pos: int, level: nat)
    requires
        same_tokens(a, b),
    ensures
        g_binary(a, pos, level) == g_binary(b, pos, level),
    decreases a.len() - pos, level + 2,
{
    if 0 <= pos < a.len() && 1 <= level <= 10 {
        if level == 1 {
            same_unary(a, b, pos);
        } else {
            same_binary(a, b, pos, (level - 1) as nat);
        }
        let lhs = if level == 1 {
            g_unary(a, pos)
        } else {
            g_binary(a, pos, (level - 1) as nat)
        };
        match lhs {
            Some((e, p)) => if pos < p < a.len() {
                same_binary_rest(a, b, p, level, e, crate::grammar::loc_of(a, pos));
            },
            None => {},
        }
    }
}

proof fn same_binary_rest(a: Seq<Token>, b: Seq<Token>, p: int, level: nat, acc: ExprView, location: SourceLocation)
    requires
        same_tokens(a, b),
    ensures
        g_binary_rest(a, p, level, acc, location) == g_binary_rest(b, p, level, acc, location),
    decreases a.len() - p, level + 2,
{
    if 0 <= p < a.len() && 1 <= level <= 10 {
        match op_at_level(level, a[p].kind) {
            Some(op) => {
                if level == 1 {
                    same_unary(a, b, p + 1);
                } else {
                    same_binary(a, b, p + 1, (level - 1) as nat);
                }
                let rhs = if level == 1 {
                    g_unary(a, p + 1)
                } else {
                    g_binary(a, p + 1, (level - 1) as nat)
                };
                match rhs {
                    Some((r, q)) => if p + 1 < q < a.len() {
                        same_binary_rest(a, b, q, level,
                            ExprView::Binary(op, Box::new(acc), Box::new(r), Some(location)), location);
                    },
                    None => {},
                }
            },
            None => {},
        }
    }
}

proof fn same_unary(a: Seq<Token>, b: Seq<Token>, pos: int)
    requires
        same_tokens(a, b),
    ensures
        g_unary(a, pos) == g_unary(b, pos),
    decreases a.len() - pos, 2nat,
{
    if 0 <= pos < a.len() {
        same_unary(a, b, pos + 1);
        same_postfix(a, b, pos);
    }
}

proof fn same_postfix(a: Seq<Token>, b: Seq<Token>, pos: int)
    requires
        same_tokens(a, b),
    ensures
        g_postfix(a, pos) == g_postfix(b, pos),
    decreases a.len() - pos, 1nat,
{
    if 0 <= pos < a.len() {
        same_primary(a, b, pos);
        match g_primary(a, pos) {
            Some((e, p)) => if pos < p < a.len() {
                same_postfix_rest(a, b, p, e);
            },
            None => {},
        }
    }
}

proof fn same_postfix_rest(a: Seq<Token>, b: Seq<Token>, p: int, acc: ExprView)
    requires
        same_tokens(a, b),
    ensures
        g_postfix_rest(a, p, acc) == g_postfix_rest(b, p, acc),
    decreases a.len() - p, 1nat,
{
    if 0 <= p < a.len() {
        let k = a[p].kind;
        let location = Some(crate::grammar::loc_of(a, p));
        if k == TokenKind::LBracket {
            same_expression(a, b, p + 1);
            match g_expression(a, p + 1) {
                Some((index, q)) => if p + 1 < q < a.len() - 1 && a[q].kind == TokenKind::RBracket {
                    same_postfix_rest(a, b, q + 1, ExprView::Index(Box::new(acc), Box::new(index), location));
                },
                None => {},
            }
        } else if k == TokenKind::LParen {
            if p + 2 < a.len() && a[p + 1].kind == TokenKind::RParen {
                same_postfix_rest(a, b, p + 2, ExprView::Call(Box::new(acc), Seq::empty(), location));
            } else {
                same_args(a, b, p + 1, Seq::empty());
                match g_args(a, p + 1, Seq::empty()) {
                    Some((args, q)) => if p + 1 < q < a.len() - 1 && a[q].kind == TokenKind::RParen {
                        same_postfix_rest(a, b, q + 1, ExprView::Call(Box::new(acc), args, location));
                    },
                    None => {},
                }
            }
        } else if k == TokenKind::Dot || k == TokenKind::Arrow {
            if p + 2 < a.len() && a[p + 1].kind == TokenKind::Identifier {
                same_postfix_rest(a, b, p + 2,
                    ExprView::MemberAccess(Box::new(acc), a[p + 1].text@, k == TokenKind::Arrow, location));
            }
        } else if k == TokenKind::PlusPlus || k == TokenKind::MinusMinus {
            same_postfix_rest(a, b, p + 1, ExprView::IncDec(Box::new(acc), k == TokenKind::MinusMinus, false, location));
        }
    }
}

proof fn same_args(a: Seq<Token>, b: Seq<Token>, q: int, acc: Seq<ExprView>)
    requires
        same_tokens(a, b),
    ensures
        g_args(a, q, acc) == g_args(b, q, acc),
    decreases a.len() - q, 15nat,
{
    if 0 <= q < a.len() {
        same_assignment(a, b, q);
        match g_assignment(a, q) {
            Some((e, q2)) => if q < q2 < a.len() && a[q2].kind == TokenKind::Comma {
                same_args(a, b, q2 + 1, acc.push(e));
            },
            None => {},
        }
    }
}

proof fn same_primary(a: Seq<Token>, b: Seq<Token>, pos: int)
    requires
        same_tokens(a, b),
    ensures
        g_primary(a, pos) == g_primary(b, pos),
    decreases a.len() - pos, 0nat,
{
    if 0 <= pos < a.len() - 1 && a[pos].kind == TokenKind::LParen {
        same_expression(a, b, pos + 1);
    }
}

// ---------------------------------------------------------------------------
// Types and declarators
// ---------------------------------------------------------------------------

proof fn same_decl_specs(a: Seq<Token>, b: Seq<Token>, pos: int, typedefs: Seq<Seq<char>>)
    requires
        same_tokens(a, b),
    ensures
        g_decl_specs(a, pos, typedefs) == g_decl_specs(b, pos, typedefs),
    decreases a.len() - pos, 4nat,
{
    same_specs_rest(a, b, pos, typedefs, None, None);
}

proof fn same_specs_rest(a: Seq<Token>, b: Seq<Token>, p: int, typedefs: Seq<Seq<char>>, sc: Option<StorageClass>,
    base: Option<TypeView>)
    requires
        same_tokens(a, b),
    ensures
        g_specs_rest(a, p, typedefs, sc, base) == g_specs_rest(b, p, typedefs, sc, base),
    decreases a.len() - p, 3nat,
{
    if 0 <= p < a.len() - 1 {
        let k = a[p].kind;
        if k == TokenKind::KwStatic {
            same_specs_rest(a, b, p + 1, typedefs, Some(StorageClass::Static), base);
        } else if k == TokenKind::KwTypedef {
            same_specs_rest(a, b, p + 1, typedefs, Some(StorageClass::Typedef), base);
        } else if k == TokenKind::KwInt {
            same_specs_rest(a, b, p + 1, typedefs, sc, Some(TypeView::Builtin(crate::ast::BuiltinType::Int)));
        } else if k == TokenKind::KwChar {
            same_specs_rest(a, b, p + 1, typedefs, sc, Some(TypeView::Builtin(crate::ast::BuiltinType::Char)));
        } else if k == TokenKind::KwVoid {
            same_specs_rest(a, b, p + 1, typedefs, sc, Some(TypeView::Builtin(crate::ast::BuiltinType::Void)));
        } else if k == TokenKind::KwStruct {
            same_struct(a, b, p, typedefs);
            match g_struct(a, p, typedefs) {
                Some((t, q)) => if p < q < a.len() {
                    same_specs_rest(a, b, q, typedefs, sc, Some(t));
                },
                None => {},
            }
        } else if k == TokenKind::KwEnum {
            same_enum(a, b, p);
            match g_enum(a, p) {
                Some((t, q)) => if p < q < a.len() {
                    same_specs_rest(a, b, q, typedefs, sc, Some(t));
                },
                None => {},
            }
        } else if k == TokenKind::Identifier && base is None && typedefs.contains(a[p].text@) {
            same_specs_rest(a, b, p + 1, typedefs, sc, Some(TypeView::Alias(a[p].text@)));
        }
    }
}

proof fn same_enum(a: Seq<Token>, b: Seq<Token>, pos: int)
    requires
        same_tokens(a, b),
    ensures
        g_enum(a, pos) == g_enum(b, pos),
{
    if 0 <= pos < a.len() - 2 && a[pos].kind == TokenKind::KwEnum && a[pos + 1].kind == TokenKind::Identifier
        && a[pos + 2].kind == TokenKind::LBrace {
        same_enumerators(a, b, pos + 3, 0, Seq::empty());
    }
}

proof fn same_enumerators(a: Seq<Token>, b: Seq<Token>, k: int, next: int, acc: Seq<(Seq<char>, i64)>)
    requires
        same_tokens(a, b),
    ensures
        g_enumerators(a, k, next, acc) == g_enumerators(b, k, next, acc),
    decreases a.len() - k,
{
    if 0 <= k < a.len() - 1 && a[k].kind == TokenKind::Identifier {
        assert(a[k + 1].kind == b[k + 1].kind);
        if k + 2 < a.len() {
            assert(a[k + 2].kind == b[k + 2].kind && a[k + 2].text@ == b[k + 2].text@);
        }
        if k + 3 < a.len() {
            assert(a[k + 3].kind == b[k + 3].kind && a[k + 3].text@ == b[k + 3].text@);
        }
        assert(g_enum_value(a, k + 2) == g_enum_value(b, k + 2));
        let vk = if a[k + 1].kind == TokenKind::Assign { g_enum_value(a, k + 2) } else { Some((next, k + 1)) };
        match vk {
            Some((v, k2)) => if (i64::MIN <= v <= i64::MAX) && k < k2 < a.len() - 1 {
                assert(a[k2].kind == b[k2].kind);
                same_enumerators(a, b, k2 + 1, v + 1, acc.push((a[k].text@, v as i64)));
            },
            None => {},
        }
    }
}

proof fn same_struct(a: Seq<Token>, b: Seq<Token>, pos: int, typedefs: Seq<Seq<char>>)
    requires
        same_tokens(a, b),
    ensures
        g_struct(a, pos, typedefs) == g_struct(b, pos, typedefs),
    decreases a.len() - pos, 2nat,
{
    if 0 <= pos < a.len() - 2 && a[pos].kind == TokenKind::KwStruct && a[pos + 1].kind == TokenKind::Identifier
        && a[pos + 2].kind == TokenKind::LBrace {
        same_fields(a, b, pos + 3, typedefs, Seq::empty());
    }
}

proof fn same_fields(a: Seq<Token>, b: Seq<Token>, k: int, typedefs: Seq<Seq<char>>, acc: Seq<FieldView>)
    requires
        same_tokens(a, b),
    ensures
        g_fields(a, k, typedefs, acc) == g_fields(b, k, typedefs, acc),
    decreases a.len() - k, 6nat,
{
    if 0 <= k < a.len() - 1 && a[k].kind != TokenKind::RBrace {
        same_struct_declaration(a, b, k, typedefs);
        match g_struct_declaration(a, k, typedefs) {
            Some((fs, k2)) => if k < k2 < a.len() {
                same_fields(a, b, k2, typedefs, acc + fs);
            },
            None => {},
        }
    }
}

proof fn same_struct_declaration(a: Seq<Token>, b: Seq<Token>, pos: int, typedefs: Seq<Seq<char>>)
    requires
        same_tokens(a, b),
    ensures
        g_struct_declaration(a, pos, typedefs) == g_struct_declaration(b, pos, typedefs),
    decreases a.len() - pos, 5nat,
{
    if 0 <= pos < a.len() {
        same_decl_specs(a, b, pos, typedefs);
        match g_decl_specs(a, pos, typedefs) {
            Some((specs, p)) => if pos < p < a.len() {
                same_field_list(a, b, p, typedefs, specs.1, Seq::empty());
            },
            None => {},
        }
    }
}

proof fn same_field_list(a: Seq<Token>, b: Seq<Token>, p: int, typedefs: Seq<Seq<char>>, base: TypeView,
    acc: Seq<FieldView>)
    requires
        same_tokens(a, b),
    ensures
        g_field_list(a, p, typedefs, base, acc) == g_field_list(b, p, typedefs, base, acc),
    decreases a.len() - p, 5nat,
{
    if 0 <= p < a.len() {
        same_declarator(a, b, p, typedefs, base);
        match g_declarator(a, p, typedefs, base) {
            Some((d, q)) => if p < q < a.len() - 1 && !(d.1 is Function) && a[q].kind == TokenKind::Comma {
                same_field_list(a, b, q + 1, typedefs, base, acc.push(FieldView { name: d.0, ty: d.1 }));
            },
            None => {},
        }
    }
}

proof fn same_declarator(a: Seq<Token>, b: Seq<Token>, pos: int, typedefs: Seq<Seq<char>>, base: TypeView)
    requires
        same_tokens(a, b),
    ensures
        g_declarator(a, pos, typedefs, base) == g_declarator(b, pos, typedefs, base),
    decreases a.len() - pos, 2nat,
{
    same_pointers(a, b, pos, typedefs, base);
}

proof fn same_pointers(a: Seq<Token>, b: Seq<Token>, p: int, typedefs: Seq<Seq<char>>, ty: TypeView)
    requires
        same_tokens(a, b),
    ensures
        g_pointers(a, p, typedefs, ty) == g_pointers(b, p, typedefs, ty),
    decreases a.len() - p, 1nat,
{
    if 0 <= p < a.len() {
        if a[p].kind == TokenKind::Star {
            same_pointers(a, b, p + 1, typedefs, TypeView::Pointer(Box::new(ty)));
        } else {
            same_direct_declarator(a, b, p, typedefs, ty);
        }
    }
}

proof fn same_direct_declarator(a: Seq<Token>, b: Seq<Token>, pos: int, typedefs: Seq<Seq<char>>, base: TypeView)
    requires
        same_tokens(a, b),
    ensures
        g_direct_declarator(a, pos, typedefs, base) == g_direct_declarator(b, pos, typedefs, base),
    decreases a.len() - pos, 0nat,
{
    if 0 <= pos < a.len() - 1 && a[pos].kind == TokenKind::Identifier {
        same_suffixes(a, b, pos + 1, typedefs, a[pos].text@, base);
    }
}

proof fn same_suffixes(a: Seq<Token>, b: Seq<Token>, p: int, typedefs: Seq<Seq<char>>, name: Seq<char>, ty: TypeView)
    requires
        same_tokens(a, b),
    ensures
        g_suffixes(a, p, typedefs, name, ty) == g_suffixes(b, p, typedefs, name, ty),
    decreases a.len() - p, 0nat,
{
    if 0 <= p < a.len() - 1 {
        let k = a[p].kind;
        if k == TokenKind::LBracket {
            if a[p + 1].kind != TokenKind::RBracket {
                same_assignment(a, b, p + 1);
            }
            let inner: Option<(Option<crate::ast::ConstExpr>, int)> = if a[p + 1].kind == TokenKind::RBracket {
                Some((None, p + 1))
            } else {
                match g_assignment(a, p + 1) {
                    Some((e, q)) => Some((crate::grammar::array_size(e), q)),
                    None => None,
                }
            };
            match inner {
                Some((size, q)) => if p < q < a.len() - 1 && a[q].kind == TokenKind::RBracket {
                    same_suffixes(a, b, q + 1, typedefs, name, TypeView::Array(Box::new(ty), size));
                },
                None => {},
            }
        } else if k == TokenKind::LParen {
            if a[p + 1].kind != TokenKind::RParen {
                same_params(a, b, p + 1, typedefs, Seq::empty());
            }
            let inner: Option<(Seq<ParamView>, int)> = if a[p + 1].kind == TokenKind::RParen {
                Some((Seq::empty(), p + 1))
            } else {
                g_params(a, p + 1, typedefs, Seq::empty())
            };
            match inner {
                Some((params, q)) => if p < q < a.len() - 1 && a[q].kind == TokenKind::RParen {
                    same_suffixes(a, b, q + 1, typedefs, name, TypeView::Function(Box::new(ty), params));
                },
                None => {},
            }
        }
    }
}

proof fn same_params(a: Seq<Token>, b: Seq<Token>, q: int, typedefs: Seq<Seq<char>>, acc: Seq<ParamView>)
    requires
        same_tokens(a, b),
    ensures
        g_params(a, q, typedefs, acc) == g_params(b, q, typedefs, acc),
    decreases a.len() - q, 7nat,
{
    if 0 <= q < a.len() {
        same_parameter(a, b, q, typedefs);
        match g_parameter(a, q, typedefs) {
            Some((prm, q2)) => if q < q2 < a.len() && a[q2].kind == TokenKind::Comma {
                same_params(a, b, q2 + 1, typedefs, acc.push(prm));
            },
            None => {},
        }
    }
}

proof fn same_parameter(a: Seq<Token>, b: Seq<Token>, pos: int, typedefs: Seq<Seq<char>>)
    requires
        same_tokens(a, b),
    ensures
        g_parameter(a, pos, typedefs) == g_parameter(b, pos, typedefs),
    decreases a.len() - pos, 6nat,
{
    if 0 <= pos < a.len() {
        same_decl_specs(a, b, pos, typedefs);
        match g_decl_specs(a, pos, typedefs) {
            Some((specs, p)) => if pos < p < a.len() {
                same_declarator(a, b, p, typedefs, specs.1);
            },
            None => {},
        }
    }
}

// ---------------------------------------------------------------------------
// Initializers and declarations
// ---------------------------------------------------------------------------

proof fn same_initializer(a: Seq<Token>, b: Seq<Token>, pos: int)
    requires
        same_tokens(a, b),
    ensures
        g_initializer(a, pos) == g_initializer(b, pos),
{
    if 0 <= pos < a.len() - 1 {
        same_init_list(a, b, pos + 1, Seq::empty());
        same_assignment(a, b, pos);
    }
}

proof fn same_init_list(a: Seq<Token>, b: Seq<Token>, p: int, acc: Seq<ExprView>)
    requires
        same_tokens(a, b),
    ensures
        g_init_list(a, p, acc) == g_init_list(b, p, acc),
    decreases a.len() - p,
{
    if 0 <= p < a.len() - 1 && a[p].kind != TokenKind::RBrace {
        same_assignment(a, b, p);
        match g_assignment(a, p) {
            Some((e, q)) => if p < q < a.len() {
                if a[q].kind == TokenKind::Comma {
                    same_init_list(a, b, q + 1, acc.push(e));
                } else if a[q].kind == TokenKind::RBrace {
                    same_init_list(a, b, q, acc.push(e));
                }
            },
            None => {},
        }
    }
}

proof fn same_init_suffix(a: Seq<Token>, b: Seq<Token>, pos: int)
    requires
        same_tokens(a, b),
    ensures
        g_init_suffix(a, pos) == g_init_suffix(b, pos),
{
    if 0 <= pos < a.len() {
        same_initializer(a, b, pos + 1);
    }
}

proof fn same_more_declarators(a: Seq<Token>, b: Seq<Token>, p: int, typedefs: Seq<Seq<char>>, base: TypeView,
    acc: Seq<DeclaratorView>)
    requires
        same_tokens(a, b),
    ensures
        g_more_declarators(a, p, typedefs, base, acc) == g_more_declarators(b, p, typedefs, base, acc),
    decreases a.len() - p,
{
    if 0 <= p < a.len() - 1 && a[p].kind == TokenKind::Comma {
        same_declarator(a, b, p + 1, typedefs, base);
        match g_declarator(a, p + 1, typedefs, base) {
            Some((d, q)) => {
                same_init_suffix(a, b, q);
                match g_init_suffix(a, q) {
                    Some((init, q2)) => if p < q2 < a.len() {
                        same_more_declarators(a, b, q2, typedefs, base,
                            acc.push(DeclaratorView { name: d.0, ty: d.1, initializer: init }));
                    },
                    None => {},
                }
            },
            None => {},
        }
    }
}

proof fn same_declarators(a: Seq<Token>, b: Seq<Token>, p: int, typedefs: Seq<Seq<char>>, base: TypeView)
    requires
        same_tokens(a, b),
    ensures
        g_declarators(a, p, typedefs, base) == g_declarators(b, p, typedefs, base),
{
    same_declarator(a, b, p, typedefs, base);
    match g_declarator(a, p, typedefs, base) {
        Some((d, q)) => {
            same_init_suffix(a, b, q);
            match g_init_suffix(a, q) {
                Some((init, q2)) => same_more_declarators(a, b, q2, typedefs, base,
                    seq![DeclaratorView { name: d.0, ty: d.1, initializer: init }]),
                None => {},
            }
        },
        None => {},
    }
}

proof fn same_declaration(a: Seq<Token>, b: Seq<Token>, pos: int, typedefs: Seq<Seq<char>>)
    requires
        same_tokens(a, b),
    ensures
        g_declaration(a, pos, typedefs) == g_declaration(b, pos, typedefs),
{
    same_decl_specs(a, b, pos, typedefs);
    match g_decl_specs(a, pos, typedefs) {
        Some((specs, p)) => same_declarators(a, b, p, typedefs, specs.1),
        None => {},
    }
}

// ---------------------------------------------------------------------------
// Statements and the unit
// ---------------------------------------------------------------------------

proof fn same_opt_expression(a: Seq<Token>, b: Seq<Token>, pos: int, close: TokenKind)
    requires
        same_tokens(a, b),
    ensures
        g_opt_expression(a, pos, close) == g_opt_expression(b, pos, close),
{
    same_expression(a, b, pos);
}

proof fn same_asm_args(a: Seq<Token>, b: Seq<Token>, p: int, acc: Seq<Seq<char>>)
    requires
        same_tokens(a, b),
    ensures
        g_asm_args(a, p, acc) == g_asm_args(b, p, acc),
    decreases a.len() - p,
{
    if 0 <= p < a.len() - 1 && a[p].kind == TokenKind::StringLiteral {
        match crate::grammar::literal_content(a[p].text@) {
            Some(c) => if a[p + 1].kind == TokenKind::Comma {
                same_asm_args(a, b, p + 2, acc.push(crate::parser::spec_unescape(c)));
            },
            None => {},
        }
    }
}

proof fn same_compound(a: Seq<Token>, b: Seq<Token>, pos: int, typedefs: Seq<Seq<char>>)
    requires
        same_tokens(a, b),
    ensures
        g_compound(a, pos, typedefs) == g_compound(b, pos, typedefs),
    decreases a.len() - pos, 0nat,
{
    if 0 <= pos < a.len() - 1 && a[pos].kind == TokenKind::LBrace {
        same_block_items(a, b, pos + 1, typedefs, Seq::empty());
    }
}

proof fn same_block_items(a: Seq<Token>, b: Seq<Token>, p: int, typedefs: Seq<Seq<char>>, acc: Seq<ItemView>)
    requires
        same_tokens(a, b),
    ensures
        g_block_items(a, p, typedefs, acc) == g_block_items(b, p, typedefs, acc),
    decreases a.len() - p, 2nat,
{
    if 0 <= p < a.len() - 1 && a[p].kind != TokenKind::RBrace {
        if crate::grammar::starts_declaration(a, p, typedefs) {
            same_declaration(a, b, p, typedefs);
            match g_declaration(a, p, typedefs) {
                Some((d, q)) => if p < q < a.len() {
                    same_block_items(a, b, q, typedefs, acc.push(ItemView::Declaration(d)));
                },
                None => {},
            }
        } else {
            same_statement(a, b, p, typedefs);
            match g_statement(a, p, typedefs) {
                Some((st, q)) => if p < q < a.len() {
                    same_block_items(a, b, q, typedefs, acc.push(ItemView::Statement(st)));
                },
                None => {},
            }
        }
    }
}

proof fn same_statement(a: Seq<Token>, b: Seq<Token>, pos: int, typedefs: Seq<Seq<char>>)
    requires
        same_tokens(a, b),
    ensures
        g_statement(a, pos, typedefs) == g_statement(b, pos, typedefs),
    decreases a.len() - pos, 1nat,
{
    if 0 <= pos < a.len() - 1 {
        let k = a[pos].kind;
        if k == TokenKind::LBrace {
            same_compound(a, b, pos, typedefs);
        } else if k == TokenKind::KwIf || k == TokenKind::KwWhile {
            same_expression(a, b, pos + 2);
            match g_expression(a, pos + 2) {
                Some((_, p2)) => if pos + 2 < p2 < a.len() - 1 {
                    same_statement(a, b, p2 + 1, typedefs);
                    match g_statement(a, p2 + 1, typedefs) {
                        Some((_, p4)) => if p2 + 1 < p4 < a.len() {
                            same_statement(a, b, p4 + 1, typedefs);
                        },
                        None => {},
                    }
                },
                None => {},
            }
        } else if k == TokenKind::KwFor {
            same_opt_expression(a, b, pos + 2, TokenKind::Semicolon);
            match g_opt_expression(a, pos + 2, TokenKind::Semicolon) {
                Some((_, p2)) => {
                    same_opt_expression(a, b, p2, TokenKind::Semicolon);
                    match g_opt_expression(a, p2, TokenKind::Semicolon) {
                        Some((_, p3)) => {
                            same_opt_expression(a, b, p3, TokenKind::RParen);
                            match g_opt_expression(a, p3, TokenKind::RParen) {
                                Some((_, p4)) => if pos < p4 < a.len() {
                                    same_statement(a, b, p4, typedefs);
                                },
                                None => {},
                            }
                        },
                        None => {},
                    }
                },
                None => {},
            }
        } else if k == TokenKind::KwReturn {
            same_opt_expression(a, b, pos + 1, TokenKind::Semicolon);
        } else if k == TokenKind::KwAsm {
            same_asm_args(a, b, pos + 2, Seq::empty());
        } else {
            same_opt_expression(a, b, pos, TokenKind::Semicolon);
        }
    }
}

proof fn same_external(a: Seq<Token>, b: Seq<Token>, pos: int, typedefs: Seq<Seq<char>>)
    requires
        same_tokens(a, b),
    ensures
        g_external(a, pos, typedefs) == g_external(b, pos, typedefs),
{
    same_decl_specs(a, b, pos, typedefs);
    match g_decl_specs(a, pos, typedefs) {
        Some((specs, p)) => if pos < p < a.len() {
            same_declarator(a, b, p, typedefs, specs.1);
            match g_declarator(a, p, typedefs, specs.1) {
                Some((_, q)) => {
                    same_compound(a, b, q, typedefs);
                    same_declarators(a, b, p, typedefs, specs.1);
                },
                None => {},
            }
        },
        None => {},
    }
}

proof fn same_unit(a: Seq<Token>, b: Seq<Token>, p: int, typedefs: Seq<Seq<char>>, acc: Seq<crate::ast::ExternalView>)
    requires
        same_tokens(a, b),
    ensures
        g_unit(a, p, typedefs, acc) == g_unit(b, p, typedefs, acc),
    decreases a.len() - p,
{
    if 0 <= p < a.len() && a[p].kind != TokenKind::Eof {
        same_external(a, b, p, typedefs);
        match g_external(a, p, typedefs) {
            Some((item, q)) => if p < q < a.len() {
                same_unit(a, b, q, typedefs + typedef_names(item), acc.push(item));
            },
            None => {},
        }
    }
}

/// Token streams that agree on every token's kind, text, line and column spell the same
/// translation unit (or both none).
pub proof fn law_grammar_reads_token_contents_only(a: Seq<Token>, b: Seq<Token>)
    requires
        same_tokens(a, b),
    ensures
        g_translation_unit(a) == g_translation_unit(b),
{
    same_unit(a, b, 0, Seq::empty(), Seq::empty());
}


/// `for (A; B; C) S` is read clause by clause in source order: when the initialization `A`
/// (up to the first `;`), the condition `B` (up to the second `;`), the update `C` (up to
/// `)`) and the body `S` parse, the statement is the `for` loop whose initialization,
/// condition, update and body are those parses, in that order, and it ends where `S` ends.
#[verifier::rlimit(50)]
#[verifier::spinoff_prover]
pub proof fn law_for_clauses_keep_their_order(ts: Seq<Token>, pos: int, typedefs: Seq<Seq<char>>,
    init: Option<ExprView>, p2: int, cond: Option<ExprView>, p3: int, update: Option<ExprView>, p4: int,
    body: crate::ast::StmtView, p5: int)
    requires
        0 <= pos,
        pos + 1 < ts.len(),
        ts[pos].kind == TokenKind::KwFor,
        ts[pos + 1].kind == TokenKind::LParen,
        g_opt_expression(ts, pos + 2, TokenKind::Semicolon) == Some((init, p2)),
        g_opt_expression(ts, p2, TokenKind::Semicolon) == Some((cond, p3)),
        g_opt_expression(ts, p3, TokenKind::RParen) == Some((update, p4)),
        g_statement(ts, p4, typedefs) == Some((body, p5)),
    ensures
        g_statement(ts, pos, typedefs) == Some((crate::ast::StmtView::For(init, cond, update, Box::new(body)), p5)),
{
    assert(pos + 2 < p2 < p3 < p4 < ts.len());
}


/// A binary operator keeps its operands in source order: after an operand `acc`, an
/// operator of the level at `p` and the right operand `r` read just after it, the
/// expression continues from `op` applied to `acc` on the left and `r` on the right.
pub proof fn law_binary_operands_keep_their_order(ts: Seq<Token>, p: int, level: nat, acc: ExprView,
    location: crate::error::SourceLocation, op: crate::ast::BinaryOp, r: ExprView, q: int)
    requires
        1 <= level <= 10,
        0 <= p,
        p + 1 < q < ts.len(),
        op_at_level(level, ts[p].kind) == Some(op),
        (if level == 1 { g_unary(ts, p + 1) } else { g_binary(ts, p + 1, (level - 1) as nat) }) == Some((r, q)),
    ensures
        g_binary_rest(ts, p, level, acc, location)
            == g_binary_rest(ts, q, level, ExprView::Binary(op, Box::new(acc), Box::new(r), Some(location)), location),
{
}

/// Indexing keeps the indexed expression as the base and the bracketed expression as the
/// index: after `acc`, `[ i ]` continues from the element of `acc` at `i`.
pub proof fn law_index_keeps_base_and_index(ts: Seq<Token>, p: int, acc: ExprView, index: ExprView, q: int)
    requires
        0 <= p,
        p + 1 < q < ts.len() - 1,
        ts[p].kind == TokenKind::LBracket,
        g_expression(ts, p + 1) == Some((index, q)),
        ts[q].kind == TokenKind::RBracket,
    ensures
        g_postfix_rest(ts, p, acc)
            == g_postfix_rest(ts, q + 1, ExprView::Index(Box::new(acc), Box::new(index), Some(crate::grammar::loc_of(ts, p)))),
{
}


/// An assignment keeps its sides: when the text from `pos` reads as a target `t` up to an
/// `=` and a value `v` after it, the expression assigns `v` to `t`.
#[verifier::rlimit(50)]
#[verifier::spinoff_prover]
pub proof fn law_assignment_keeps_target_and_value(ts: Seq<Token>, pos: int, lhs: ExprView, p: int,
    target: ExprView, value: ExprView, end: int)
    requires
        0 <= pos < p < ts.len(),
        g_binary(ts, pos, 10) == Some((lhs, p)),
        ts[p].kind == TokenKind::Assign,
        g_unary(ts, pos) == Some((target, p)),
        g_assignment(ts, p + 1) == Some((value, end)),
    ensures
        g_assignment(ts, pos) == Some((
            ExprView::Assignment(Box::new(target), Box::new(value), Some(crate::grammar::loc_of(ts, pos))),
            end,
        )),
{
}

/// `if (C) S1 else S2` keeps its parts in place: the condition is the parse of `C`, the
/// branch taken when it holds is the parse of `S1`, and the other branch the parse of `S2`.
#[verifier::rlimit(50)]
#[verifier::spinoff_prover]
pub proof fn law_if_else_keeps_its_branches(ts: Seq<Token>, pos: int, typedefs: Seq<Seq<char>>, cond: ExprView,
    p2: int, then_branch: crate::ast::StmtView, p4: int, else_branch: crate::ast::StmtView, p5: int)
    requires
        0 <= pos,
        pos + 2 < p2 < ts.len() - 1,
        p2 + 1 < p4 < ts.len(),
        ts[pos].kind == TokenKind::KwIf,
        ts[pos + 1].kind == TokenKind::LParen,
        g_expression(ts, pos + 2) == Some((cond, p2)),
        ts[p2].kind == TokenKind::RParen,
        g_statement(ts, p2 + 1, typedefs) == Some((then_branch, p4)),
        ts[p4].kind == TokenKind::KwElse,
        g_statement(ts, p4 + 1, typedefs) == Some((else_branch, p5)),
    ensures
        g_statement(ts, pos, typedefs) == Some((
            crate::ast::StmtView::If(cond, Box::new(then_branch), Some(Box::new(else_branch))),
            p5,
        )),
{
}

} // verus!
