//! A readable s-expression rendering of the AST.
use vstd::prelude::*;
use crate::ast::{BinaryOp, Block, BlockItem, BuiltinType, ConstExpr, Declarator, Expression, ExternalDeclaration,
    FunctionDeclaration, Parameter, Statement, StructField, Enumerator, TranslationUnit, Type, UnaryOp};
use crate::codegen::emitter::op_name;
use crate::codegen::model::binary_op_name;
use crate::error::SourceLocation;
use crate::text::{dec_int, dec_nat, i64_to_decimal, push_char, push_str, u64_to_decimal};

verus! {

// ---------------------------------------------------------------------------
// Debug notation of types
// ---------------------------------------------------------------------------

pub open spec fn hex_digit(d: nat) -> char {
    if d < 10 {
        crate::text::digit_char(d)
    } else if d == 10 {
        'a'
    } else if d == 11 {
        'b'
    } else if d == 12 {
        'c'
    } else if d == 13 {
        'd'
    } else if d == 14 {
        'e'
    } else {
        'f'
    }
}

/// Lowercase hexadecimal notation of a number below 256.
pub open spec fn hex_small(n: nat) -> Seq<char> {
    if n < 16 {
        seq![hex_digit(n)]
    } else {
        seq![hex_digit(n / 16), hex_digit(n % 16)]
    }
}

/// A character as it appears inside a quoted string in `Debug` notation (ASCII control
/// characters are written as escapes; other characters as they are).
pub open spec fn escape_char(c: char) -> Seq<char> {
    if c == '"' {
        seq!['\\', '"']
    } else if c == '\\' {
        seq!['\\', '\\']
    } else if c == '\n' {
        seq!['\\', 'n']
    } else if c == '\r' {
        seq!['\\', 'r']
    } else if c == '\t' {
        seq!['\\', 't']
    } else if c == '\0' {
        seq!['\\', '0']
    } else if (c as u32) < 32 || (c as u32) == 127 {
        seq!['\\', 'u', '{'] + hex_small(c as u32 as nat) + seq!['}']
    } else {
        seq![c]
    }
}

pub open spec fn escape_str(s: Seq<char>) -> Seq<char>
    decreases s.len(),
{
    if s.len() == 0 {
        Seq::empty()
    } else {
        escape_str(s.drop_last()) + escape_char(s.last())
    }
}

/// A string in `Debug` notation: quoted and escaped.
pub open spec fn debug_str(s: Seq<char>) -> Seq<char> {
    seq!['"'] + escape_str(s) + seq!['"']
}

pub open spec fn builtin_name(b: BuiltinType) -> Seq<char> {
    match b {
        BuiltinType::Int => "Int"@,
        BuiltinType::Char => "Char"@,
        BuiltinType::Void => "Void"@,
    }
}

pub open spec fn opt_name_debug(n: Option<String>) -> Seq<char> {
    match n {
        Some(s) => "Some("@ + debug_str(s@) + ")"@,
        None => "None"@,
    }
}

pub open spec fn location_debug(l: Option<SourceLocation>) -> Seq<char> {
    match l {
        Some(x) => "Some(SourceLocation { line: "@ + dec_nat(x.line as nat) + ", column: "@ + dec_nat(x.column as nat)
            + " })"@,
        None => "None"@,
    }
}

pub open spec fn size_debug(s: Option<ConstExpr>) -> Seq<char> {
    match s {
        Some(c) => "Some(ConstExpr { value: "@ + dec_int(c.value as int) + " })"@,
        None => "None"@,
    }
}

/// A type in `Debug` notation.
pub open spec fn type_debug(t: Type) -> Seq<char>
    decreases t,
{
    match t {
        Type::Builtin(b) => "Builtin("@ + builtin_name(b) + ")"@,
        Type::Pointer(p) => "Pointer("@ + type_debug(*p) + ")"@,
        Type::Array { element, size } => "Array { element: "@ + type_debug(*element) + ", size: "@ + size_debug(size)
            + " }"@,
        Type::Function { return_type, params } => "Function { return_type: "@ + type_debug(*return_type)
            + ", params: ["@ + params_debug(params@) + "] }"@,
        Type::Struct { name, fields } => "Struct { name: "@ + debug_str(name@) + ", fields: ["@ + fields_debug(fields@)
            + "] }"@,
        Type::Alias(n) => "Alias("@ + debug_str(n@) + ")"@,
        Type::Enum { name, enumerators } => "Enum { name: "@ + debug_str(name@) + ", enumerators: ["@
            + enumerators_debug(enumerators@) + "] }"@,
    }
}

pub open spec fn enumerator_debug(e: Enumerator) -> Seq<char> {
    "Enumerator { name: "@ + debug_str(e.name@) + ", value: "@ + dec_int(e.value as int) + " }"@
}

pub open spec fn enumerators_debug(es: Seq<Enumerator>) -> Seq<char>
    decreases es.len(),
{
    if es.len() == 0 {
        Seq::empty()
    } else if es.len() == 1 {
        enumerator_debug(es[0])
    } else {
        enumerators_debug(es.drop_last()) + ", "@ + enumerator_debug(es.last())
    }
}

pub open spec fn param_debug(p: Parameter) -> Seq<char>
    decreases p,
{
    "Parameter { name: "@ + opt_name_debug(p.name) + ", ty: "@ + type_debug(p.ty) + ", location: "@
        + location_debug(p.location) + " }"@
}

pub open spec fn params_debug(ps: Seq<Parameter>) -> Seq<char>
    decreases ps,
{
    if ps.len() == 0 {
        Seq::empty()
    } else if ps.len() == 1 {
        param_debug(ps[0])
    } else {
        params_debug(ps.drop_last()) + ", "@ + param_debug(ps.last())
    }
}

pub open spec fn field_debug(f: StructField) -> Seq<char>
    decreases f,
{
    "StructField { name: "@ + debug_str(f.name@) + ", ty: "@ + type_debug(f.ty) + " }"@
}

pub open spec fn fields_debug(fs: Seq<StructField>) -> Seq<char>
    decreases fs,
{
    if fs.len() == 0 {
        Seq::empty()
    } else if fs.len() == 1 {
        field_debug(fs[0])
    } else {
        fields_debug(fs.drop_last()) + ", "@ + field_debug(fs.last())
    }
}

fn hex_digit_char(d: u32) -> (c: char)
    requires
        d < 16,
    ensures
        c == hex_digit(d as nat),
{
    if d < 10 {
        let s = u64_to_decimal(d as u64);
        proof {
            reveal_with_fuel(dec_nat, 2);
        }
        assert(s@ =~= seq![crate::text::digit_char(d as nat)]);
        s.as_str().get_char(0)
    } else if d == 10 {
        'a'
    } else if d == 11 {
        'b'
    } else if d == 12 {
        'c'
    } else if d == 13 {
        'd'
    } else if d == 14 {
        'e'
    } else {
        'f'
    }
}

fn write_escaped_char(out: &mut String, c: char)
    ensures
        final(out)@ == old(out)@ + escape_char(c),
{
    let ghost start = out@;
    if c == '"' {
        push_char(out, '\\');
        push_char(out, '"');
    } else if c == '\\' {
        push_char(out, '\\');
        push_char(out, '\\');
    } else if c == '\n' {
        push_char(out, '\\');
        push_char(out, 'n');
    } else if c == '\r' {
        push_char(out, '\\');
        push_char(out, 'r');
    } else if c == '\t' {
        push_char(out, '\\');
        push_char(out, 't');
    } else if c == '\0' {
        push_char(out, '\\');
        push_char(out, '0');
    } else if (c as u32) < 32 || (c as u32) == 127 {
        let n = c as u32;
        push_char(out, '\\');
        push_char(out, 'u');
        push_char(out, '{');
        if n < 16 {
            push_char(out, hex_digit_char(n));
        } else {
            push_char(out, hex_digit_char(n / 16));
            push_char(out, hex_digit_char(n % 16));
        }
        push_char(out, '}');
    } else {
        push_char(out, c);
    }
    assert(out@ =~= start + escape_char(c));
}

/// Appends a string in `Debug` notation.
fn write_debug_str(out: &mut String, s: &String)
    ensures
        final(out)@ == old(out)@ + debug_str(s@),
{
    let ghost start = out@;
    let cs = crate::text::chars_of(s.as_str());
    push_char(out, '"');
    let mut i: usize = 0;
    while i < cs.len()
        invariant
            0 <= i <= cs.len(),
            out@ == start + seq!['"'] + escape_str(cs@.take(i as int)),
        decreases cs.len() - i,
    {
        assert(cs@.take(i + 1).drop_last() =~= cs@.take(i as int));
        write_escaped_char(out, cs[i]);
        assert(out@ =~= start + seq!['"'] + escape_str(cs@.take(i + 1)));
        i += 1;
    }
    assert(cs@.take(cs.len() as int) =~= s@);
    push_char(out, '"');
    assert(out@ =~= start + debug_str(s@));
}

fn write_opt_name(out: &mut String, n: &Option<String>)
    ensures
        final(out)@ == old(out)@ + opt_name_debug(*n),
{
    let ghost start = out@;
    match n {
        Some(s) => {
            push_str(out, "Some(");
            write_debug_str(out, s);
            push_str(out, ")");
        },
        None => push_str(out, "None"),
    }
    assert(out@ =~= start + opt_name_debug(*n));
}

fn write_location(out: &mut String, l: &Option<SourceLocation>)
    ensures
        final(out)@ == old(out)@ + location_debug(*l),
{
    let ghost start = out@;
    match l {
        Some(x) => {
            push_str(out, "Some(SourceLocation { line: ");
            push_str(out, u64_to_decimal(x.line as u64).as_str());
            push_str(out, ", column: ");
            push_str(out, u64_to_decimal(x.column as u64).as_str());
            push_str(out, " })");
        },
        None => push_str(out, "None"),
    }
    assert(out@ =~= start + location_debug(*l));
}

fn builtin_text(b: BuiltinType) -> (r: &'static str)
    ensures
        r@ == builtin_name(b),
{
    match b {
        BuiltinType::Int => "Int",
        BuiltinType::Char => "Char",
        BuiltinType::Void => "Void",
    }
}

fn write_param_debug(out: &mut String, p: &Parameter)
    ensures
        final(out)@ == old(out)@ + param_debug(*p),
    decreases p, 0nat,
{
    let ghost start = out@;
    push_str(out, "Parameter { name: ");
    write_opt_name(out, &p.name);
    push_str(out, ", ty: ");
    write_type_debug(out, &p.ty);
    push_str(out, ", location: ");
    write_location(out, &p.location);
    push_str(out, " }");
    assert(out@ =~= start + param_debug(*p));
}

fn write_field_debug(out: &mut String, f: &StructField)
    ensures
        final(out)@ == old(out)@ + field_debug(*f),
    decreases f, 0nat,
{
    let ghost start = out@;
    push_str(out, "StructField { name: ");
    write_debug_str(out, &f.name);
    push_str(out, ", ty: ");
    write_type_debug(out, &f.ty);
    push_str(out, " }");
    assert(out@ =~= start + field_debug(*f));
}

fn write_params_debug(out: &mut String, params: &Vec<Parameter>, Ghost(parent): Ghost<Type>)
    requires
        decreases_to!(parent => params@),
    ensures
        final(out)@ == old(out)@ + params_debug(params@),
    decreases parent, 1nat,
{
    let ghost before = out@;
    let mut i: usize = 0;
    while i < params.len()
        invariant
            0 <= i <= params.len(),
            decreases_to!(parent => params@),
            out@ == before + params_debug(params@.take(i as int)),
        decreases params.len() - i,
    {
        proof {
            assert(decreases_to!(params@ => params@[i as int]));
        }
        let ghost u = params@.take(i + 1);
        assert(u.drop_last() =~= params@.take(i as int));
        assert(u.last() == params@[i as int]);
        if i > 0 {
            push_str(out, ", ");
        }
        write_param_debug(out, &params[i]);
        if i == 0 {
            assert(u[0] == params@[0]);
        }
        assert(out@ =~= before + params_debug(u));
        i += 1;
    }
    assert(params@.take(params.len() as int) =~= params@);
}

fn write_fields_debug(out: &mut String, fields: &Vec<StructField>, Ghost(parent): Ghost<Type>)
    requires
        decreases_to!(parent => fields@),
    ensures
        final(out)@ == old(out)@ + fields_debug(fields@),
    decreases parent, 1nat,
{
    let ghost before = out@;
    let mut i: usize = 0;
    while i < fields.len()
        invariant
            0 <= i <= fields.len(),
            decreases_to!(parent => fields@),
            out@ == before + fields_debug(fields@.take(i as int)),
        decreases fields.len() - i,
    {
        proof {
            assert(decreases_to!(fields@ => fields@[i as int]));
        }
        let ghost u = fields@.take(i + 1);
        assert(u.drop_last() =~= fields@.take(i as int));
        assert(u.last() == fields@[i as int]);
        if i > 0 {
            push_str(out, ", ");
        }
        write_field_debug(out, &fields[i]);
        if i == 0 {
            assert(u[0] == fields@[0]);
        }
        assert(out@ =~= before + fields_debug(u));
        i += 1;
    }
    assert(fields@.take(fields.len() as int) =~= fields@);
}

/// Appends a type in `Debug` notation.
pub fn write_type_debug(out: &mut String, t: &Type)
    ensures
        final(out)@ == old(out)@ + type_debug(*t),
    decreases t, 2nat,
{
    let ghost start = out@;
    match t {
        Type::Builtin(b) => {
            push_str(out, "Builtin(");
            push_str(out, builtin_text(*b));
            push_str(out, ")");
        },
        Type::Pointer(p) => {
            push_str(out, "Pointer(");
            write_type_debug(out, p);
            push_str(out, ")");
        },
        Type::Array { element, size } => {
            push_str(out, "Array { element: ");
            write_type_debug(out, element);
            push_str(out, ", size: ");
            match size {
                Some(c) => {
                    push_str(out, "Some(ConstExpr { value: ");
                    push_str(out, i64_to_decimal(c.value).as_str());
                    push_str(out, " })");
                },
                None => push_str(out, "None"),
            }
            push_str(out, " }");
        },
        Type::Function { return_type, params } => {
            push_str(out, "Function { return_type: ");
            write_type_debug(out, return_type);
            push_str(out, ", params: [");
            proof {
                assert(decreases_to!(*t => *params));
                assert(decreases_to!(*params => params@));
            }
            write_params_debug(out, params, Ghost(*t));
            push_str(out, "] }");
        },
        Type::Struct { name, fields } => {
            push_str(out, "Struct { name: ");
            write_debug_str(out, name);
            push_str(out, ", fields: [");
            proof {
                assert(decreases_to!(*t => *fields));
                assert(decreases_to!(*fields => fields@));
            }
            write_fields_debug(out, fields, Ghost(*t));
            push_str(out, "] }");
        },
        Type::Alias(n) => {
            push_str(out, "Alias(");
            write_debug_str(out, n);
            push_str(out, ")");
        },
        Type::Enum { name, enumerators } => {
            push_str(out, "Enum { name: ");
            write_debug_str(out, name);
            push_str(out, ", enumerators: [");
            let ghost before = out@;
            let mut i: usize = 0;
            while i < enumerators.len()
                invariant
                    0 <= i <= enumerators.len(),
                    out@ == before + enumerators_debug(enumerators@.take(i as int)),
                decreases enumerators.len() - i,
            {
                let ghost u = enumerators@.take(i + 1);
                assert(u.drop_last() =~= enumerators@.take(i as int));
                assert(u.last() == enumerators@[i as int]);
                if i > 0 {
                    push_str(out, ", ");
                }
                push_str(out, "Enumerator { name: ");
                write_debug_str(out, &enumerators[i].name);
                push_str(out, ", value: ");
                push_str(out, i64_to_decimal(enumerators[i].value).as_str());
                push_str(out, " }");
                if i == 0 {
                    assert(u[0] == enumerators@[0]);
                }
                assert(out@ =~= before + enumerators_debug(u));
                i += 1;
            }
            assert(enumerators@.take(enumerators.len() as int) =~= enumerators@);
            push_str(out, "] }");
        },
    }
    assert(out@ =~= start + type_debug(*t));
}

} // verus!

verus! {

// ---------------------------------------------------------------------------
// The tree rendering
// ---------------------------------------------------------------------------

pub open spec fn unary_name(op: UnaryOp) -> Seq<char> {
    match op {
        UnaryOp::AddressOf => "AddressOf"@,
        UnaryOp::Dereference => "Dereference"@,
        UnaryOp::Plus => "Plus"@,
        UnaryOp::Minus => "Minus"@,
        UnaryOp::LogicalNot => "LogicalNot"@,
    }
}

/// One level deeper.
pub open spec fn deeper(ind: Seq<char>) -> Seq<char> {
    ind + "  "@
}

/// An expression at indentation `ind`, one line per node.
pub open spec fn pp_expr(e: Expression, ind: Seq<char>) -> Seq<char>
    decreases e,
{
    let i1 = deeper(ind);
    let i2 = deeper(i1);
    match e {
        Expression::Identifier { name, .. } => ind + "(Identifier "@ + name@ + ")\n"@,
        Expression::IntegerLiteral { value, .. } => ind + "(IntegerLiteral "@ + dec_int(value as int) + ")\n"@,
        Expression::Unary { op, expr, .. } => ind + "(Unary "@ + unary_name(op) + "\n"@ + pp_expr(*expr, i1) + ind
            + ")\n"@,
        Expression::Binary { op, lhs, rhs, .. } => ind + "(Binary "@ + binary_op_name(op) + "\n"@ + pp_expr(*lhs, i1)
            + pp_expr(*rhs, i1) + ind + ")\n"@,
        Expression::Assignment { target, value, .. } => ind + "(Assignment\n"@ + pp_expr(*target, i1) + pp_expr(
            *value,
            i1,
        ) + ind + ")\n"@,
        Expression::Call { callee, args, .. } => ind + "(Call\n"@ + ind + "  (Callee\n"@ + pp_expr(*callee, i2) + ind
            + "  )\n"@ + ind + "  (Args\n"@ + pp_exprs(args@, i2) + ind + "  )\n"@ + ind + ")\n"@,
        Expression::Index { base, index, .. } => ind + "(Index\n"@ + pp_expr(*base, i1) + pp_expr(*index, i1) + ind
            + ")\n"@,
        Expression::ArrayInitializer { elements, .. } => ind + "(ArrayInitializer\n"@ + pp_exprs(elements@, i1) + ind
            + ")\n"@,
        Expression::MemberAccess { base, member, through_pointer, .. } => ind + "(MemberAccess "@ + (if through_pointer {
            "Arrow"@
        } else {
            "Dot"@
        }) + " "@ + member@ + "\n"@ + pp_expr(*base, i1) + ind + ")\n"@,
        Expression::IncDec { target, decrement, prefix, .. } => ind + "(IncDec "@ + incdec_name(decrement, prefix)
            + "\n"@ + pp_expr(*target, i1) + ind + ")\n"@,
    }
}

/// The name under which an increment or decrement is printed.
pub open spec fn incdec_name(decrement: bool, prefix: bool) -> Seq<char> {
    if decrement {
        if prefix { "PreDecrement"@ } else { "PostDecrement"@ }
    } else {
        if prefix { "PreIncrement"@ } else { "PostIncrement"@ }
    }
}

fn incdec_text(decrement: bool, prefix: bool) -> (r: &'static str)
    ensures
        r@ == incdec_name(decrement, prefix),
{
    if decrement {
        if prefix { "PreDecrement" } else { "PostDecrement" }
    } else {
        if prefix { "PreIncrement" } else { "PostIncrement" }
    }
}

pub open spec fn pp_exprs(es: Seq<Expression>, ind: Seq<char>) -> Seq<char>
    decreases es,
{
    if es.len() == 0 {
        Seq::empty()
    } else {
        pp_exprs(es.drop_last(), ind) + pp_expr(es.last(), ind)
    }
}

/// A declarator whose line starts with `p`.
pub open spec fn pp_declarator(d: Declarator, p: Seq<char>) -> Seq<char> {
    p + "(Declarator "@ + d.name@ + " "@ + type_debug(d.ty) + "\n"@ + match d.initializer {
        Some(e) => p + "  (Initializer\n"@ + pp_expr(e, deeper(deeper(p))) + p + "  )\n"@,
        None => Seq::empty(),
    } + p + ")\n"@
}

pub open spec fn pp_declarators(ds: Seq<Declarator>, p: Seq<char>) -> Seq<char>
    decreases ds.len(),
{
    if ds.len() == 0 {
        Seq::empty()
    } else {
        pp_declarators(ds.drop_last(), p) + pp_declarator(ds.last(), p)
    }
}

pub open spec fn pp_opt_expr(e: Option<Expression>, ind: Seq<char>) -> Seq<char> {
    match e {
        Some(x) => pp_expr(x, ind),
        None => Seq::empty(),
    }
}

/// An optional labelled part of a statement, such as a `for` loop's condition.
pub open spec fn pp_section(label: Seq<char>, e: Option<Expression>, ind: Seq<char>) -> Seq<char> {
    match e {
        Some(x) => ind + "  ("@ + label + "\n"@ + pp_expr(x, deeper(deeper(ind))) + ind + "  )\n"@,
        None => Seq::empty(),
    }
}

pub open spec fn pp_asm_lines(texts: Seq<String>, ind: Seq<char>) -> Seq<char>
    decreases texts.len(),
{
    if texts.len() == 0 {
        Seq::empty()
    } else {
        pp_asm_lines(texts.drop_last(), ind) + ind + "  "@ + texts.last()@ + "\n"@
    }
}

pub open spec fn pp_stmt(s: Statement, ind: Seq<char>) -> Seq<char>
    decreases s, 0nat,
{
    let i1 = deeper(ind);
    let i2 = deeper(i1);
    match s {
        Statement::Block(b) => pp_block(b.items@, ind),
        Statement::If { condition, then_branch, else_branch } => ind + "(If\n"@ + ind + "  (Condition\n"@ + pp_expr(
            condition,
            i2,
        ) + ind + "  )\n"@ + ind + "  (Then\n"@ + pp_stmt(*then_branch, i2) + ind + "  )\n"@ + match else_branch {
            Some(e) => ind + "  (Else\n"@ + pp_stmt(*e, i2) + ind + "  )\n"@,
            None => Seq::empty(),
        } + ind + ")\n"@,
        Statement::Return(e) => ind + "(Return\n"@ + pp_opt_expr(e, i1) + ind + ")\n"@,
        Statement::Expression(e) => ind + "(ExpressionStatement\n"@ + pp_opt_expr(e, i1) + ind + ")\n"@,
        Statement::While { condition, body } => ind + "(While\n"@ + ind + "  (Condition\n"@ + pp_expr(condition, i2)
            + ind + "  )\n"@ + ind + "  (Body\n"@ + pp_stmt(*body, i2) + ind + "  )\n"@ + ind + ")\n"@,
        Statement::For { init, condition, update, body } => ind + "(For\n"@ + pp_section("Init"@, init, ind)
            + pp_section("Condition"@, condition, ind) + pp_section("Update"@, update, ind) + ind + "  (Body\n"@
            + pp_stmt(*body, i2) + ind + "  )\n"@ + ind + ")\n"@,
        Statement::InlineAsm(texts) => ind + "(InlineAsm\n"@ + pp_asm_lines(texts@, ind) + ind + ")\n"@,
    }
}

pub open spec fn pp_block(items: Seq<BlockItem>, ind: Seq<char>) -> Seq<char>
    decreases items, 1nat,
{
    ind + "(Block\n"@ + pp_items(items, ind) + ind + ")\n"@
}

pub open spec fn pp_items(items: Seq<BlockItem>, ind: Seq<char>) -> Seq<char>
    decreases items, 0nat,
{
    if items.len() == 0 {
        Seq::empty()
    } else {
        pp_items(items.drop_last(), ind) + pp_item(items.last(), ind)
    }
}

pub open spec fn pp_item(item: BlockItem, ind: Seq<char>) -> Seq<char>
    decreases item, 0nat,
{
    match item {
        BlockItem::Declaration(d) => ind + "  (Declaration\n"@ + pp_declarators(d.declarators@, deeper(deeper(ind)))
            + ind + "  )\n"@,
        BlockItem::Statement(st) => pp_stmt(st, deeper(ind)),
    }
}

pub open spec fn pp_params(ps: Seq<Parameter>, p: Seq<char>) -> Seq<char>
    decreases ps.len(),
{
    if ps.len() == 0 {
        Seq::empty()
    } else {
        pp_params(ps.drop_last(), p) + p + "(Param "@ + opt_name_debug(ps.last().name) + " "@ + type_debug(ps.last().ty)
            + ")\n"@
    }
}

pub open spec fn pp_external(item: ExternalDeclaration, ind: Seq<char>) -> Seq<char> {
    match item {
        ExternalDeclaration::GlobalDeclaration(d) => ind + "(GlobalDeclaration\n"@ + pp_declarators(
            d.declarators@,
            deeper(ind),
        ) + ind + ")\n"@,
        ExternalDeclaration::Function(f) => ind + "(Function "@ + f.name@ + "\n"@ + ind + "  (ReturnType "@ + type_debug(
            f.return_type,
        ) + ")\n"@ + ind + "  (Params\n"@ + pp_params(f.params@, deeper(deeper(ind))) + ind + "  )\n"@ + ind
            + "  (Body\n"@ + pp_block(f.body.items@, deeper(deeper(ind))) + ind + "  )\n"@ + ind + ")\n"@,
        ExternalDeclaration::TypeDeclaration(t) => ind + "(TypeDeclaration "@ + type_debug(t) + ")\n"@,
    }
}

pub open spec fn pp_externals(items: Seq<ExternalDeclaration>, ind: Seq<char>) -> Seq<char>
    decreases items.len(),
{
    if items.len() == 0 {
        Seq::empty()
    } else {
        pp_externals(items.drop_last(), ind) + pp_external(items.last(), ind)
    }
}

/// The whole unit as an s-expression tree.
pub open spec fn pp_unit(unit: TranslationUnit) -> Seq<char> {
    "(TranslationUnit\n"@ + pp_externals(unit.top_level_items@, "  "@) + ")\n"@
}

} // verus!

verus! {

fn deeper_indent(ind: &String) -> (r: String)
    ensures
        r@ == deeper(ind@),
{
    crate::text::concat2(ind.as_str(), "  ")
}

fn unary_text(op: UnaryOp) -> (r: &'static str)
    ensures
        r@ == unary_name(op),
{
    match op {
        UnaryOp::AddressOf => "AddressOf",
        UnaryOp::Dereference => "Dereference",
        UnaryOp::Plus => "Plus",
        UnaryOp::Minus => "Minus",
        UnaryOp::LogicalNot => "LogicalNot",
    }
}

/// Appends `ind`, `text` and a closing parenthesis line marker as one step.
fn write_line(out: &mut String, ind: &String, text: &str)
    ensures
        final(out)@ == old(out)@ + ind@ + text@,
{
    push_str(out, ind.as_str());
    push_str(out, text);
}

fn write_expressions(out: &mut String, es: &Vec<Expression>, ind: &String, Ghost(parent): Ghost<Expression>)
    requires
        decreases_to!(parent => es@),
    ensures
        final(out)@ == old(out)@ + pp_exprs(es@, ind@),
    decreases parent, 0nat,
{
    let ghost start = out@;
    let mut i: usize = 0;
    while i < es.len()
        invariant
            0 <= i <= es.len(),
            decreases_to!(parent => es@),
            out@ == start + pp_exprs(es@.take(i as int), ind@),
        decreases es.len() - i,
    {
        proof {
            assert(decreases_to!(es@ => es@[i as int]));
        }
        let ghost u = es@.take(i + 1);
        assert(u.drop_last() =~= es@.take(i as int));
        assert(u.last() == es@[i as int]);
        write_expression(out, &es[i], ind);
        assert(out@ =~= start + pp_exprs(u, ind@));
        i += 1;
    }
    assert(es@.take(es.len() as int) =~= es@);
}

fn write_call(out: &mut String, e: &Expression, ind: &String)
    requires
        *e is Call,
    ensures
        final(out)@ == old(out)@ + pp_expr(*e, ind@),
    decreases e, 1nat,
{
    match e {
        Expression::Call { callee, args, .. } => {
            let ghost start = out@;
            let i2 = deeper_indent(&deeper_indent(ind));
            write_line(out, ind, "(Call\n");
            write_line(out, ind, "  (Callee\n");
            let ghost a = out@;
            write_expression(out, callee, &i2);
            let ghost b = out@;
            write_line(out, ind, "  )\n");
            write_line(out, ind, "  (Args\n");
            let ghost c = out@;
            proof {
                assert(decreases_to!(*e => *args));
                assert(decreases_to!(*args => args@));
            }
            write_expressions(out, args, &i2, Ghost(*e));
            let ghost d = out@;
            write_line(out, ind, "  )\n");
            write_line(out, ind, ")\n");
            assert(out@ =~= start + pp_expr(*e, ind@));
        },
        _ => {},
    }
}

/// Appends an expression at indentation `ind`.
#[verifier::rlimit(40)]
pub fn write_expression(out: &mut String, e: &Expression, ind: &String)
    ensures
        final(out)@ == old(out)@ + pp_expr(*e, ind@),
    decreases e, 2nat,
{
    let ghost start = out@;
    let i1 = deeper_indent(ind);
    match e {
        Expression::Identifier { name, .. } => {
            write_line(out, ind, "(Identifier ");
            push_str(out, name.as_str());
            push_str(out, ")\n");
        },
        Expression::IntegerLiteral { value, .. } => {
            write_line(out, ind, "(IntegerLiteral ");
            push_str(out, i64_to_decimal(*value).as_str());
            push_str(out, ")\n");
        },
        Expression::Unary { op, expr, .. } => {
            write_line(out, ind, "(Unary ");
            push_str(out, unary_text(*op));
            push_str(out, "\n");
            write_expression(out, expr, &i1);
            write_line(out, ind, ")\n");
        },
        Expression::Binary { op, lhs, rhs, .. } => {
            write_line(out, ind, "(Binary ");
            push_str(out, op_name(*op));
            push_str(out, "\n");
            let ghost a = out@;
            write_expression(out, lhs, &i1);
            let ghost b = out@;
            write_expression(out, rhs, &i1);
            write_line(out, ind, ")\n");
        },
        Expression::Assignment { target, value, .. } => {
            write_line(out, ind, "(Assignment\n");
            let ghost a = out@;
            write_expression(out, target, &i1);
            let ghost b = out@;
            write_expression(out, value, &i1);
            write_line(out, ind, ")\n");
        },
        Expression::Call { .. } => write_call(out, e, ind),
        Expression::Index { base, index, .. } => {
            write_line(out, ind, "(Index\n");
            let ghost a = out@;
            write_expression(out, base, &i1);
            let ghost b = out@;
            write_expression(out, index, &i1);
            write_line(out, ind, ")\n");
        },
        Expression::ArrayInitializer { elements, .. } => {
            write_line(out, ind, "(ArrayInitializer\n");
            proof {
                assert(decreases_to!(*e => *elements));
                assert(decreases_to!(*elements => elements@));
            }
            write_expressions(out, elements, &i1, Ghost(*e));
            write_line(out, ind, ")\n");
        },
        Expression::MemberAccess { base, member, through_pointer, .. } => {
            write_line(out, ind, "(MemberAccess ");
            push_str(out, if *through_pointer { "Arrow" } else { "Dot" });
            push_str(out, " ");
            push_str(out, member.as_str());
            push_str(out, "\n");
            write_expression(out, base, &i1);
            write_line(out, ind, ")\n");
        },
        Expression::IncDec { target, decrement, prefix, .. } => {
            write_line(out, ind, "(IncDec ");
            push_str(out, incdec_text(*decrement, *prefix));
            push_str(out, "\n");
            write_expression(out, target, &i1);
            write_line(out, ind, ")\n");
        },
    }
    assert(out@ =~= start + pp_expr(*e, ind@));
}

} // verus!

verus! {

fn write_declarator(out: &mut String, d: &Declarator, p: &String)
    ensures
        final(out)@ == old(out)@ + pp_declarator(*d, p@),
{
    let ghost start = out@;
    write_line(out, p, "(Declarator ");
    push_str(out, d.name.as_str());
    push_str(out, " ");
    write_type_debug(out, &d.ty);
    push_str(out, "\n");
    let ghost a = out@;
    if let Some(e) = &d.initializer {
        write_line(out, p, "  (Initializer\n");
        write_expression(out, e, &deeper_indent(&deeper_indent(p)));
        write_line(out, p, "  )\n");
    }
    let ghost b = out@;
    write_line(out, p, ")\n");
    assert(out@ =~= start + pp_declarator(*d, p@));
}

fn write_declarators(out: &mut String, ds: &Vec<Declarator>, p: &String)
    ensures
        final(out)@ == old(out)@ + pp_declarators(ds@, p@),
{
    let ghost start = out@;
    let mut i: usize = 0;
    while i < ds.len()
        invariant
            0 <= i <= ds.len(),
            out@ == start + pp_declarators(ds@.take(i as int), p@),
        decreases ds.len() - i,
    {
        let ghost u = ds@.take(i + 1);
        assert(u.drop_last() =~= ds@.take(i as int));
        assert(u.last() == ds@[i as int]);
        write_declarator(out, &ds[i], p);
        assert(out@ =~= start + pp_declarators(u, p@));
        i += 1;
    }
    assert(ds@.take(ds.len() as int) =~= ds@);
}

fn write_opt_expression(out: &mut String, e: &Option<Expression>, ind: &String)
    ensures
        final(out)@ == old(out)@ + pp_opt_expr(*e, ind@),
{
    let ghost start = out@;
    if let Some(x) = e {
        write_expression(out, x, ind);
    }
    assert(out@ =~= start + pp_opt_expr(*e, ind@));
}

fn write_section(out: &mut String, label: &str, e: &Option<Expression>, ind: &String)
    ensures
        final(out)@ == old(out)@ + pp_section(label@, *e, ind@),
{
    let ghost start = out@;
    if let Some(x) = e {
        write_line(out, ind, "  (");
        push_str(out, label);
        push_str(out, "\n");
        write_expression(out, x, &deeper_indent(&deeper_indent(ind)));
        write_line(out, ind, "  )\n");
    }
    assert(out@ =~= start + pp_section(label@, *e, ind@));
}

fn write_asm_lines(out: &mut String, texts: &Vec<String>, ind: &String)
    ensures
        final(out)@ == old(out)@ + pp_asm_lines(texts@, ind@),
{
    let ghost start = out@;
    let mut i: usize = 0;
    while i < texts.len()
        invariant
            0 <= i <= texts.len(),
            out@ == start + pp_asm_lines(texts@.take(i as int), ind@),
        decreases texts.len() - i,
    {
        let ghost u = texts@.take(i + 1);
        assert(u.drop_last() =~= texts@.take(i as int));
        assert(u.last() == texts@[i as int]);
        write_line(out, ind, "  ");
        push_str(out, texts[i].as_str());
        push_str(out, "\n");
        assert(out@ =~= start + pp_asm_lines(u, ind@));
        i += 1;
    }
    assert(texts@.take(texts.len() as int) =~= texts@);
}

/// Appends a block at indentation `ind`.
#[verifier::loop_isolation(false)]
fn write_block(out: &mut String, block: &Block, ind: &String)
    ensures
        final(out)@ == old(out)@ + pp_block(block.items@, ind@),
    decreases block, 1nat,
{
    let ghost start = out@;
    write_line(out, ind, "(Block\n");
    let ghost a = out@;
    let items = &block.items;
    let mut i: usize = 0;
    while i < items.len()
        invariant
            0 <= i <= items.len(),
            out@ == a + pp_items(items@.take(i as int), ind@),
        decreases items.len() - i,
    {
        proof {
            assert(decreases_to!(*block => *items));
            assert(decreases_to!(*items => items@));
            assert(decreases_to!(items@ => items@[i as int]));
        }
        let ghost u = items@.take(i + 1);
        assert(u.drop_last() =~= items@.take(i as int));
        assert(u.last() == items@[i as int]);
        let ghost before = out@;
        match &items[i] {
            BlockItem::Declaration(declaration) => {
                write_line(out, ind, "  (Declaration\n");
                write_declarators(out, &declaration.declarators, &deeper_indent(&deeper_indent(ind)));
                write_line(out, ind, "  )\n");
            },
            BlockItem::Statement(statement) => {
                write_statement(out, statement, &deeper_indent(ind));
            },
        }
        assert(out@ =~= before + pp_item(items@[i as int], ind@));
        assert(out@ =~= a + pp_items(u, ind@));
        i += 1;
    }
    assert(items@.take(items.len() as int) =~= items@);
    write_line(out, ind, ")\n");
    assert(out@ =~= start + pp_block(block.items@, ind@));
}

#[verifier::rlimit(100)]
fn write_if(out: &mut String, statement: &Statement, ind: &String)
    requires
        *statement is If,
    ensures
        final(out)@ == old(out)@ + pp_stmt(*statement, ind@),
    decreases statement, 1nat,
{
    match statement {
        Statement::If { condition, then_branch, else_branch } => {
            let ghost start = out@;
            let i2 = deeper_indent(&deeper_indent(ind));
            write_line(out, ind, "(If\n");
            write_line(out, ind, "  (Condition\n");
            let ghost a = out@;
            write_expression(out, condition, &i2);
            let ghost b = out@;
            write_line(out, ind, "  )\n");
            write_line(out, ind, "  (Then\n");
            let ghost c = out@;
            write_statement(out, then_branch, &i2);
            let ghost d = out@;
            write_line(out, ind, "  )\n");
            let ghost e = out@;
            if let Some(else_statement) = else_branch {
                write_line(out, ind, "  (Else\n");
                write_statement(out, else_statement, &i2);
                write_line(out, ind, "  )\n");
            }
            let ghost f = out@;
            write_line(out, ind, ")\n");
            assert(out@ =~= start + pp_stmt(*statement, ind@));
        },
        _ => {},
    }
}

#[verifier::rlimit(100)]
fn write_loop(out: &mut String, statement: &Statement, ind: &String)
    requires
        *statement is While || *statement is For,
    ensures
        final(out)@ == old(out)@ + pp_stmt(*statement, ind@),
    decreases statement, 1nat,
{
    let ghost start = out@;
    let i2 = deeper_indent(&deeper_indent(ind));
    match statement {
        Statement::While { condition, body } => {
            write_line(out, ind, "(While\n");
            write_line(out, ind, "  (Condition\n");
            let ghost a = out@;
            write_expression(out, condition, &i2);
            let ghost b = out@;
            write_line(out, ind, "  )\n");
            write_line(out, ind, "  (Body\n");
            let ghost c = out@;
            write_statement(out, body, &i2);
            let ghost d = out@;
            write_line(out, ind, "  )\n");
            write_line(out, ind, ")\n");
        },
        Statement::For { init, condition, update, body } => {
            write_line(out, ind, "(For\n");
            let ghost a = out@;
            write_section(out, "Init", init, ind);
            write_section(out, "Condition", condition, ind);
            write_section(out, "Update", update, ind);
            let ghost b = out@;
            write_line(out, ind, "  (Body\n");
            let ghost c = out@;
            write_statement(out, body, &i2);
            let ghost d = out@;
            write_line(out, ind, "  )\n");
            write_line(out, ind, ")\n");
        },
        _ => {},
    }
    assert(out@ =~= start + pp_stmt(*statement, ind@));
}

/// Appends a statement at indentation `ind`.
pub fn write_statement(out: &mut String, statement: &Statement, ind: &String)
    ensures
        final(out)@ == old(out)@ + pp_stmt(*statement, ind@),
    decreases statement, 2nat,
{
    let ghost start = out@;
    match statement {
        Statement::Block(block) => write_block(out, block, ind),
        Statement::If { .. } => write_if(out, statement, ind),
        Statement::Return(expression) => {
            write_line(out, ind, "(Return\n");
            write_opt_expression(out, expression, &deeper_indent(ind));
            write_line(out, ind, ")\n");
        },
        Statement::Expression(expression) => {
            write_line(out, ind, "(ExpressionStatement\n");
            write_opt_expression(out, expression, &deeper_indent(ind));
            write_line(out, ind, ")\n");
        },
        Statement::While { .. } | Statement::For { .. } => write_loop(out, statement, ind),
        Statement::InlineAsm(instructions) => {
            write_line(out, ind, "(InlineAsm\n");
            write_asm_lines(out, instructions, ind);
            write_line(out, ind, ")\n");
        },
    }
    assert(out@ =~= start + pp_stmt(*statement, ind@));
}

fn write_params(out: &mut String, ps: &Vec<Parameter>, p: &String)
    ensures
        final(out)@ == old(out)@ + pp_params(ps@, p@),
{
    let ghost start = out@;
    let mut i: usize = 0;
    while i < ps.len()
        invariant
            0 <= i <= ps.len(),
            out@ == start + pp_params(ps@.take(i as int), p@),
        decreases ps.len() - i,
    {
        let ghost u = ps@.take(i + 1);
        assert(u.drop_last() =~= ps@.take(i as int));
        assert(u.last() == ps@[i as int]);
        write_line(out, p, "(Param ");
        write_opt_name(out, &ps[i].name);
        push_str(out, " ");
        write_type_debug(out, &ps[i].ty);
        push_str(out, ")\n");
        assert(out@ =~= start + pp_params(u, p@));
        i += 1;
    }
    assert(ps@.take(ps.len() as int) =~= ps@);
}

/// Appends a top-level item at indentation `ind`.
#[verifier::rlimit(100)]
#[verifier::spinoff_prover]
fn write_external_declaration(out: &mut String, item: &ExternalDeclaration, ind: &String)
    ensures
        final(out)@ == old(out)@ + pp_external(*item, ind@),
{
    let ghost start = out@;
    match item {
        ExternalDeclaration::GlobalDeclaration(declaration) => {
            write_line(out, ind, "(GlobalDeclaration\n");
            write_declarators(out, &declaration.declarators, &deeper_indent(ind));
            write_line(out, ind, ")\n");
        },
        ExternalDeclaration::Function(function) => {
            let i2 = deeper_indent(&deeper_indent(ind));
            write_line(out, ind, "(Function ");
            push_str(out, function.name.as_str());
            push_str(out, "\n");
            write_line(out, ind, "  (ReturnType ");
            let ghost a = out@;
            write_type_debug(out, &function.return_type);
            push_str(out, ")\n");
            write_line(out, ind, "  (Params\n");
            let ghost b = out@;
            write_params(out, &function.params, &i2);
            let ghost c = out@;
            write_line(out, ind, "  )\n");
            write_line(out, ind, "  (Body\n");
            let ghost d = out@;
            write_block(out, &function.body, &i2);
            let ghost e = out@;
            write_line(out, ind, "  )\n");
            write_line(out, ind, ")\n");
        },
        ExternalDeclaration::TypeDeclaration(t) => {
            write_line(out, ind, "(TypeDeclaration ");
            write_type_debug(out, t);
            push_str(out, ")\n");
        },
    }
    assert(out@ =~= start + pp_external(*item, ind@));
}

impl TranslationUnit {
    /// Returns a human-readable s-expression representation of the AST.
    pub fn pretty_print(&self) -> (r: String)
        ensures
            r@ == pp_unit(*self),
    {
        let mut output = crate::text::str_to_string("(TranslationUnit\n");
        let ind = crate::text::str_to_string("  ");
        let ghost a = output@;
        let items = &self.top_level_items;
        let mut i: usize = 0;
        while i < items.len()
            invariant
                0 <= i <= items.len(),
                ind@ == "  "@,
                output@ == a + pp_externals(items@.take(i as int), ind@),
            decreases items.len() - i,
        {
            let ghost u = items@.take(i + 1);
            assert(u.drop_last() =~= items@.take(i as int));
            assert(u.last() == items@[i as int]);
            write_external_declaration(&mut output, &items[i], &ind);
            assert(output@ =~= a + pp_externals(u, ind@));
            i += 1;
        }
        assert(items@.take(items.len() as int) =~= items@);
        push_str(&mut output, ")\n");
        output
    }
}


/// The dump of a binary expression `l op r` at indentation `ind` lists the operands in
/// source order: the header line `(Binary <op>`, then the dump of the left operand, then
/// the dump of the right operand (both indented two more spaces), then the closing line.
/// So the left operand's dump starts right after the header line.
pub proof fn law_binary_dump_lists_operands_in_order(op: BinaryOp, l: Expression, r: Expression,
    location: Option<SourceLocation>, ind: Seq<char>)
    ensures
        pp_expr(Expression::Binary { op, lhs: Box::new(l), rhs: Box::new(r), location }, ind)
            == ind + "(Binary "@ + binary_op_name(op) + "\n"@ + pp_expr(l, ind + "  "@) + pp_expr(r, ind + "  "@)
            + ind + ")\n"@,
        pp_expr(l, ind + "  "@).is_prefix_of(
            pp_expr(Expression::Binary { op, lhs: Box::new(l), rhs: Box::new(r), location }, ind).skip(
                (ind + "(Binary "@ + binary_op_name(op) + "\n"@).len() as int,
            ),
        ),
{
    let h = ind + "(Binary "@ + binary_op_name(op) + "\n"@;
    let a = pp_expr(l, ind + "  "@);
    let d = pp_expr(Expression::Binary { op, lhs: Box::new(l), rhs: Box::new(r), location }, ind);
    assert(d =~= h + a + (pp_expr(r, ind + "  "@) + ind + ")\n"@));
    assert(d.skip(h.len() as int).subrange(0, a.len() as int) =~= a);
}


/// The dump of an assignment lists the target before the value, and that of an indexing
/// the base before the index, each one level deeper than the header line.
pub proof fn law_two_part_dumps_keep_source_order(a: Expression, b: Expression, location: Option<SourceLocation>,
    ind: Seq<char>)
    ensures
        pp_expr(Expression::Assignment { target: Box::new(a), value: Box::new(b), location }, ind)
            == ind + "(Assignment\n"@ + pp_expr(a, ind + "  "@) + pp_expr(b, ind + "  "@) + ind + ")\n"@,
        pp_expr(Expression::Index { base: Box::new(a), index: Box::new(b), location }, ind)
            == ind + "(Index\n"@ + pp_expr(a, ind + "  "@) + pp_expr(b, ind + "  "@) + ind + ")\n"@,
{
}


/// The dump of `for (A; B; C) S` lists its parts in source order under their names: the
/// `Init` section holds the dump of `A`, then `Condition` that of `B`, then `Update` that of
/// `C` (each section present only when its clause is), then `Body` the dump of `S`.
pub proof fn law_for_dump_keeps_clause_order(a: Expression, b: Expression, c: Expression, body: Statement,
    ind: Seq<char>)
    ensures
        pp_stmt(Statement::For { init: Some(a), condition: Some(b), update: Some(c), body: Box::new(body) }, ind)
            == ind + "(For\n"@
            + (ind + "  (Init\n"@ + pp_expr(a, ind + "    "@) + ind + "  )\n"@)
            + (ind + "  (Condition\n"@ + pp_expr(b, ind + "    "@) + ind + "  )\n"@)
            + (ind + "  (Update\n"@ + pp_expr(c, ind + "    "@) + ind + "  )\n"@)
            + ind + "  (Body\n"@ + pp_stmt(body, ind + "    "@) + ind + "  )\n"@ + ind + ")\n"@,
{
    reveal_strlit("  (");
    reveal_strlit("  (Init\n");
    reveal_strlit("  (Condition\n");
    reveal_strlit("  (Update\n");
    reveal_strlit("Init");
    reveal_strlit("Condition");
    reveal_strlit("Update");
    reveal_strlit("\n");
    reveal_strlit("  ");
    reveal_strlit("    ");
    assert(ind + "  "@ + "  "@ =~= ind + "    "@);
    assert(ind + "  ("@ + "Init"@ + "\n"@ =~= ind + "  (Init\n"@);
    assert(ind + "  ("@ + "Condition"@ + "\n"@ =~= ind + "  (Condition\n"@);
    assert(ind + "  ("@ + "Update"@ + "\n"@ =~= ind + "  (Update\n"@);
}

} // verus!
