use vstd::prelude::*;
use crate::ast::{copy_type, enumerators_view, evaluate_constant, field_view, fields_view, lemma_fields_view, BinaryOp, Block, BlockItem,
    BuiltinType, Declarator, Expression, ExternalDeclaration, FieldView, FunctionDeclaration, Parameter, Statement,
    StorageClass, StructField, TranslationUnit, Type, TypeView, UnaryOp};
use crate::error::CompilerError;
use crate::symbols::{assoc_get, find_last, SymbolMap};
use crate::codegen::model::{EmitView, EmitContextView, EmitFault, fault_error, emitted, emitted_in,
    empty_state, with_instr, with_instrs, with_data, with_datas, bump, num, ensure_zero, ensure_one,
    int_const_label, ensure_int_const, ensure_addr_const, ensure_index_cells, lookup_scopes, resolve,
    binary_op_name, binop_lines, binop, helper_call_lines, is_comparison_or_logic, next_counter,
    sp_expr, sp_incdec, incdec_indirect, step_line, sp_index_address, sp_unary, sp_address_of, sp_binary, sp_assignment, sp_call, sp_args, param_stores, spill_value,
    fn_entry, fn_ret, param_label, leading_constants, array_initial_values, scalar_initial_value, array_cell_count, element_line,
    sp_storage, strip_cr, lines_acc, text_lines, is_ident_start, is_ident_continue, ident_end, lemma_ident_end,
    prepend, render_line, is_white, all_white, sp_asm_lines, sp_asm, bind_local, push_scope, pop_scope,
    local_label, sp_local, sp_locals, sp_opt_expr, sp_stmt, sp_items, sp_item, fn_end, sp_if, sp_while, sp_for,
    sp_for_test, is_void_parameter_list, parameter_count, plan_globals, plan_symbols, parameter_scope,
    sp_function, sp_functions, global_storage, globals_storage, start_lines, entry_call_lines,
    runtime_initializer, init_context, sp_global_init, sp_global_inits, sp_unit_inits, mul_helper_lines, mod_helper_lines,
    div_helper_lines, add_helper, mul_helper, mod_helper, div_helper, with_helpers, join_lines, program_lines,
    sp_unit, emit_program, resolve_alias, struct_fields, type_size, elem_type, field_index, expr_type, member_fields,
    index_scale, scale_lines, record_definitions, sp_struct_address, sp_member_address, array_words, field_line,
    plan_typedefs, parameter_types, label_is_aggregate};
use crate::text::{chars_of, concat2, concat3, dec_int, dec_nat, i64_to_decimal, push_char, push_str, str_to_string, u64_to_decimal};

verus! {

// ---------------------------------------------------------------------------
// Lines of assembly text
// ---------------------------------------------------------------------------

/// Whether `p` is a prefix of `s`.
pub open spec fn has_prefix(s: Seq<char>, p: Seq<char>) -> bool {
    p.len() <= s.len() && s.take(p.len() as int) == p
}

/// Whether some line starts with `p`.
pub open spec fn any_line_starts_with(lines: Seq<Seq<char>>, p: Seq<char>) -> bool {
    exists|i: int| 0 <= i < lines.len() && has_prefix(#[trigger] lines[i], p)
}

/// An ordered list of output lines.
#[derive(Debug, Default)]
pub struct Lines {
    items: Vec<String>,
}

impl View for Lines {
    type V = Seq<Seq<char>>;

    closed spec fn view(&self) -> Seq<Seq<char>> {
        self.items@.map_values(|s: String| s@)
    }
}

/// Whether `s` starts with the string slice `p`.
pub fn starts_with(s: &String, p: &str) -> (r: bool)
    ensures
        r == has_prefix(s@, p@),
{
    let n = p.unicode_len();
    let m = s.as_str().unicode_len();
    if n > m {
        return false;
    }
    let mut i: usize = 0;
    while i < n
        invariant
            0 <= i <= n,
            n == p@.len(),
            m == s@.len(),
            n <= m,
            forall|j: int| 0 <= j < i ==> s@[j] == p@[j],
        decreases n - i,
    {
        if s.as_str().get_char(i) != p.get_char(i) {
            assert(s@.take(n as int)[i as int] != p@[i as int]);
            return false;
        }
        i += 1;
    }
    assert(s@.take(n as int) =~= p@);
    true
}

impl Lines {
    pub fn new() -> (r: Self)
        ensures
            r@ == Seq::<Seq<char>>::empty(),
    {
        let r = Lines { items: Vec::new() };
        assert(r@ =~= Seq::<Seq<char>>::empty());
        r
    }

    pub fn len(&self) -> (r: usize)
        ensures
            r == self@.len(),
    {
        self.items.len()
    }

    /// Appends one line.
    pub fn push(&mut self, line: String)
        ensures
            final(self)@ == old(self)@.push(line@),
    {
        self.items.push(line);
        assert(self@ =~= old(self)@.push(line@));
    }

    /// Appends one line given as a string slice.
    pub fn push_str(&mut self, line: &str)
        ensures
            final(self)@ == old(self)@.push(line@),
    {
        self.push(str_to_string(line));
    }

    /// Appends lines in order.
    pub fn extend(&mut self, lines: Vec<String>)
        ensures
            final(self)@ == old(self)@ + lines@.map_values(|l: String| l@),
    {
        let ghost start = self@;
        let mut i: usize = 0;
        while i < lines.len()
            invariant
                0 <= i <= lines.len(),
                self@ == start + lines@.take(i as int).map_values(|l: String| l@),
            decreases lines.len() - i,
        {
            self.push(lines[i].clone());
            assert(lines@.take(i + 1).map_values(|l: String| l@)
                =~= lines@.take(i as int).map_values(|l: String| l@).push(lines@[i as int]@));
            i += 1;
        }
        assert(lines@.take(lines.len() as int) =~= lines@);
    }

    /// Whether some line starts with `p`.
    pub fn any_starts_with(&self, p: &str) -> (r: bool)
        ensures
            r == any_line_starts_with(self@, p@),
    {
        let mut i: usize = 0;
        while i < self.items.len()
            invariant
                0 <= i <= self.items.len(),
                forall|j: int| 0 <= j < i ==> !has_prefix(#[trigger] self@[j], p@),
            decreases self.items.len() - i,
        {
            if starts_with(&self.items[i], p) {
                assert(self@[i as int] == self.items@[i as int]@);
                return true;
            }
            i += 1;
        }
        false
    }
}

// ---------------------------------------------------------------------------
// Emitter state
// ---------------------------------------------------------------------------

/// Emitter for MARIE assembly: code and data sections, planned symbols and constants.
#[derive(Debug)]
pub struct MarieEmitter {
    instructions: Lines,
    data: Lines,
    functions: SymbolMap<usize>,
    globals: SymbolMap<String>,
    int_consts: Vec<i64>,
    addr_consts: SymbolMap<String>,
    label_counter: usize,
    has_zero_const: bool,
    has_one_const: bool,
    needs_mul_helper: bool,
    needs_mod_helper: bool,
    needs_div_helper: bool,
    label_types: SymbolMap<Type>,
    structs: SymbolMap<Type>,
    typedefs: SymbolMap<Type>,
    enum_consts: SymbolMap<i64>,
}

impl View for MarieEmitter {
    type V = EmitView;

    closed spec fn view(&self) -> EmitView {
        EmitView {
            instructions: self.instructions@,
            data: self.data@,
            functions: self.functions@,
            globals: self.globals@,
            int_consts: self.int_consts@,
            addr_consts: self.addr_consts@,
            label_counter: self.label_counter,
            has_zero_const: self.has_zero_const,
            has_one_const: self.has_one_const,
            needs_mul_helper: self.needs_mul_helper,
            needs_mod_helper: self.needs_mod_helper,
            needs_div_helper: self.needs_div_helper,
            label_types: self.label_types@,
            structs: self.structs@,
            typedefs: self.typedefs@,
            enum_consts: self.enum_consts@,
        }
    }
}

/// Per-function emission context: the function's name and its scopes, innermost last.
#[derive(Debug)]
pub struct FunctionEmitContext {
    function_name: String,
    scopes: Vec<SymbolMap<String>>,
}

impl View for FunctionEmitContext {
    type V = EmitContextView;

    closed spec fn view(&self) -> EmitContextView {
        EmitContextView {
            function_name: self.function_name@,
            scopes: self.scopes@.map_values(|m: SymbolMap<String>| m@),
        }
    }
}

/// Whether `v` holds `x`.
fn contains_i64(v: &Vec<i64>, x: i64) -> (r: bool)
    ensures
        r == v@.contains(x),
{
    let mut i: usize = 0;
    while i < v.len()
        invariant
            0 <= i <= v.len(),
            forall|j: int| 0 <= j < i ==> v@[j] != x,
        decreases v.len() - i,
    {
        if v[i] == x {
            return true;
        }
        i += 1;
    }
    false
}

/// Position of the first field named `m`.
fn field_position(fields: &Vec<StructField>, m: &String) -> (r: Option<usize>)
    ensures
        match r {
            Some(i) => i < fields.len() && field_index(fields_view(fields@), m@) == Some(i as nat),
            None => field_index(fields_view(fields@), m@) is None,
        },
{
    proof { lemma_fields_view(fields@); }
    let ghost fs = fields_view(fields@);
    assert(fs.skip(0) =~= fs);
    let mut i: usize = 0;
    while i < fields.len()
        invariant
            0 <= i <= fields.len(),
            fs == fields_view(fields@),
            fs.len() == fields.len(),
            forall|j: int| 0 <= j < fields.len() ==> #[trigger] fs[j] == field_view(fields@[j]),
            field_index(fs, m@) == match field_index(fs.skip(i as int), m@) {
                Some(k) => Some((k + i) as nat),
                None => None,
            },
        decreases fields.len() - i,
    {
        let ghost rest = fs.skip(i as int);
        assert(rest[0] == fs[i as int]);
        assert(rest.drop_first() =~= fs.skip(i + 1));
        if fields[i].name == *m {
            return Some(i);
        }
        i += 1;
    }
    assert(fs.skip(i as int) =~= Seq::<FieldView>::empty());
    None
}

/// Decimal notation of a label number.
fn label_number(n: usize) -> (r: String)
    ensures
        r@ == num(n),
{
    u64_to_decimal(n as u64)
}

impl MarieEmitter {
    /// An emitter with empty sections and nothing planned.
    pub fn new() -> (r: Self)
        ensures
            r@ == empty_state(),
    {
        MarieEmitter {
            instructions: Lines::new(),
            data: Lines::new(),
            functions: SymbolMap::new(),
            globals: SymbolMap::new(),
            int_consts: Vec::new(),
            addr_consts: SymbolMap::new(),
            label_counter: 0,
            has_zero_const: false,
            has_one_const: false,
            needs_mul_helper: false,
            needs_mod_helper: false,
            needs_div_helper: false,
            label_types: SymbolMap::new(),
            structs: SymbolMap::new(),
            typedefs: SymbolMap::new(),
            enum_consts: SymbolMap::new(),
        }
    }

    fn push_instr(&mut self, line: String)
        ensures
            final(self)@ == with_instr(old(self)@, line@),
    {
        self.instructions.push(line);
    }

    fn push_instr_str(&mut self, line: &str)
        ensures
            final(self)@ == with_instr(old(self)@, line@),
    {
        self.instructions.push_str(line);
    }

    fn push_data(&mut self, line: String)
        ensures
            final(self)@ == with_data(old(self)@, line@),
    {
        self.data.push(line);
    }

    fn push_data_str(&mut self, line: &str)
        ensures
            final(self)@ == with_data(old(self)@, line@),
    {
        self.data.push_str(line);
    }

    /// Takes a fresh label number.
    fn next_label_id(&mut self) -> (r: usize)
        ensures
            r == old(self)@.label_counter,
            final(self)@ == bump(old(self)@),
    {
        let current = self.label_counter;
        self.label_counter = if self.label_counter == usize::MAX {
            0
        } else {
            self.label_counter + 1
        };
        current
    }

    fn ensure_zero_const(&mut self)
        ensures
            final(self)@ == ensure_zero(old(self)@),
    {
        if !self.has_zero_const {
            self.push_data_str("const_zero, DEC 0");
            self.has_zero_const = true;
        }
    }

    fn ensure_one_const(&mut self)
        ensures
            final(self)@ == ensure_one(old(self)@),
    {
        if !self.has_one_const {
            self.push_data_str("const_one, DEC 1");
            self.has_one_const = true;
        }
    }

    /// Label of the cell holding `value`, adding the cell when it is missing.
    fn ensure_int_const(&mut self, value: i64) -> (r: String)
        ensures
            final(self)@ == ensure_int_const(old(self)@, value),
            r@ == int_const_label(value),
    {
        if value == 0 {
            self.ensure_zero_const();
            return str_to_string("const_zero");
        }
        if value == 1 {
            self.ensure_one_const();
            return str_to_string("const_one");
        }
        let label = if value < 0 {
            let magnitude: u64 = if value == i64::MIN {
                9223372036854775808u64
            } else {
                (-value) as u64
            };
            concat2("const_int_neg_", u64_to_decimal(magnitude).as_str())
        } else {
            concat2("const_int_", u64_to_decimal(value as u64).as_str())
        };
        if contains_i64(&self.int_consts, value) {
            return label;
        }
        let line = concat3(label.as_str(), ", DEC ", i64_to_decimal(value).as_str());
        self.push_data(line);
        self.int_consts.push(value);
        label
    }

    /// Label of the cell holding the address of `label`, adding the cell when it is missing.
    fn ensure_addr_const(&mut self, label: &String) -> (r: String)
        ensures
            final(self)@ == ensure_addr_const(old(self)@, label@).0,
            r@ == ensure_addr_const(old(self)@, label@).1,
    {
        if let Some(existing) = self.addr_consts.get(label) {
            return existing.clone();
        }
        let addr_label = concat2("addr_", label.as_str());
        let line = concat3(addr_label.as_str(), ", ADR ", label.as_str());
        self.push_data(line);
        self.addr_consts.insert(label.clone(), addr_label.clone());
        addr_label
    }

    /// Adds the scratch cells for indexed and indirect access unless they exist.
    fn ensure_index_cells(&mut self)
        ensures
            final(self)@ == ensure_index_cells(old(self)@),
    {
        if !self.data.any_starts_with("helper_addr,") {
            self.push_data_str("helper_addr, DEC 0");
            self.push_data_str("helper_index, DEC 0");
            self.push_data_str("helper_store_value, DEC 0");
        }
    }
}

} // verus!

verus! {

/// Name of a binary operator as it appears in diagnostics.
pub(crate) fn op_name(op: BinaryOp) -> (r: &'static str)
    ensures
        r@ == binary_op_name(op),
{
    match op {
        BinaryOp::Multiply => "Multiply",
        BinaryOp::Modulo => "Modulo",
        BinaryOp::Add => "Add",
        BinaryOp::Subtract => "Subtract",
        BinaryOp::Less => "Less",
        BinaryOp::LessEqual => "LessEqual",
        BinaryOp::Greater => "Greater",
        BinaryOp::GreaterEqual => "GreaterEqual",
        BinaryOp::Equal => "Equal",
        BinaryOp::NotEqual => "NotEqual",
        BinaryOp::LogicalAnd => "LogicalAnd",
        BinaryOp::LogicalOr => "LogicalOr",
        BinaryOp::Divide => "Divide",
        BinaryOp::ShiftLeft => "ShiftLeft",
        BinaryOp::ShiftRight => "ShiftRight",
        BinaryOp::BitwiseAnd => "BitwiseAnd",
        BinaryOp::BitwiseOr => "BitwiseOr",
        BinaryOp::BitwiseXor => "BitwiseXor",
    }
}

/// The lines of a comparison or logical operator.
fn comparison_lines(op: BinaryOp, lt: &String, rt: &String, a: usize, b: usize) -> (r: Vec<String>)
    ensures
        r@.map_values(|l: String| l@) == binop_lines(op, lt@, rt@, a, b),
{
    let na = label_number(a);
    let nb = label_number(b);
    let load_l = concat2("Load ", lt.as_str());
    let subt_r = concat2("Subt ", rt.as_str());
    let r = match op {
        BinaryOp::Equal => {
            let f = concat3("cmp_eq_", na.as_str(), "_false");
            let e = concat3("cmp_eq_", nb.as_str(), "_end");
            vec![load_l, subt_r, str_to_string("Skipcond 400"), concat2("Jump ", f.as_str()),
                str_to_string("Load const_one"), concat2("Jump ", e.as_str()),
                concat2(f.as_str(), ", Load const_zero"), concat2(e.as_str(), ", Add const_zero")]
        },
        BinaryOp::NotEqual => {
            let t = concat3("cmp_ne_", na.as_str(), "_true");
            let e = concat3("cmp_ne_", nb.as_str(), "_end");
            vec![load_l, subt_r, str_to_string("Skipcond 400"), concat2("Jump ", t.as_str()),
                str_to_string("Load const_zero"), concat2("Jump ", e.as_str()),
                concat2(t.as_str(), ", Load const_one"), concat2(e.as_str(), ", Add const_zero")]
        },
        BinaryOp::Less => {
            let f = concat3("cmp_lt_", na.as_str(), "_false");
            let e = concat3("cmp_lt_", nb.as_str(), "_end");
            vec![load_l, subt_r, str_to_string("Skipcond 000"), concat2("Jump ", f.as_str()),
                str_to_string("Load const_one"), concat2("Jump ", e.as_str()),
                concat2(f.as_str(), ", Load const_zero"), concat2(e.as_str(), ", Add const_zero")]
        },
        BinaryOp::LessEqual => {
            let t = concat3("cmp_le_", na.as_str(), "_true");
            let e = concat3("cmp_le_", nb.as_str(), "_end");
            vec![load_l, subt_r, str_to_string("Skipcond 800"), concat2("Jump ", t.as_str()),
                str_to_string("Load const_zero"),
                concat2("Jump ", e.as_str()), concat2(t.as_str(), ", Load const_one"),
                concat2(e.as_str(), ", Add const_zero")]
        },
        BinaryOp::Greater => {
            let f = concat3("cmp_gt_", na.as_str(), "_false");
            let e = concat3("cmp_gt_", nb.as_str(), "_end");
            vec![load_l, subt_r, str_to_string("Skipcond 800"), concat2("Jump ", f.as_str()),
                str_to_string("Load const_one"), concat2("Jump ", e.as_str()),
                concat2(f.as_str(), ", Load const_zero"), concat2(e.as_str(), ", Add const_zero")]
        },
        BinaryOp::GreaterEqual => {
            let t = concat3("cmp_ge_", na.as_str(), "_true");
            let e = concat3("cmp_ge_", nb.as_str(), "_end");
            vec![load_l, subt_r, str_to_string("Skipcond 000"), concat2("Jump ", t.as_str()),
                str_to_string("Load const_zero"),
                concat2("Jump ", e.as_str()), concat2(t.as_str(), ", Load const_one"),
                concat2(e.as_str(), ", Add const_zero")]
        },
        BinaryOp::LogicalAnd => {
            let f = concat3("logic_and_", na.as_str(), "_false");
            let e = concat3("logic_and_", nb.as_str(), "_end");
            vec![load_l, str_to_string("Skipcond 0C00"), concat2("Jump ", f.as_str()), concat2("Load ", rt.as_str()),
                str_to_string("Skipcond 0C00"), concat2("Jump ", f.as_str()), str_to_string("Load const_one"),
                concat2("Jump ", e.as_str()), concat2(f.as_str(), ", Load const_zero"),
                concat2(e.as_str(), ", Add const_zero")]
        },
        _ => {
            let t = concat3("logic_or_", na.as_str(), "_true");
            let e = concat3("logic_or_", nb.as_str(), "_end");
            vec![load_l, str_to_string("Skipcond 400"), concat2("Jump ", t.as_str()), concat2("Load ", rt.as_str()),
                str_to_string("Skipcond 400"), concat2("Jump ", t.as_str()), str_to_string("Load const_zero"),
                concat2("Jump ", e.as_str()), concat2(t.as_str(), ", Load const_one"),
                concat2(e.as_str(), ", Add const_zero")]
        },
    };
    assert(r@.map_values(|l: String| l@) =~= binop_lines(op, lt@, rt@, a, b));
    r
}

impl MarieEmitter {
    /// A type with a `typedef` name replaced by the type it names.
    fn resolve_alias(&self, t: &Type) -> (r: Type)
        ensures
            r@ == resolve_alias(self@, t@),
    {
        match t {
            Type::Alias(n) => match self.typedefs.get(n) {
                Some(u) => copy_type(u),
                None => copy_type(t),
            },
            _ => copy_type(t),
        }
    }

    /// The struct type (with its fields) that a type names, if any.
    fn struct_of(&self, t: &Type) -> (r: Option<Type>)
        ensures
            match r {
                Some(u) => u@ matches TypeView::Struct(_, fs) && struct_fields(self@, t@) == Some(fs),
                None => struct_fields(self@, t@) is None,
            },
    {
        let resolved = self.resolve_alias(t);
        match &resolved {
            Type::Struct { name, fields } => {
                if fields.len() > 0 {
                    proof { lemma_fields_view(fields@); }
                    Some(copy_type(&resolved))
                } else {
                    proof { lemma_fields_view(fields@); }
                    match self.structs.get(name) {
                        Some(u) => match u {
                            Type::Struct { fields: fs, .. } => {
                                proof { lemma_fields_view(fs@); }
                                if fs.len() > 0 {
                                    Some(copy_type(u))
                                } else {
                                    None
                                }
                            },
                            _ => None,
                        },
                        None => None,
                    }
                }
            },
            _ => None,
        }
    }

    /// Whether the variable stored under `l` is an array or a struct.
    fn label_is_aggregate(&self, l: &String) -> (r: bool)
        ensures
            r == label_is_aggregate(self@, l@),
    {
        match self.label_types.get(l) {
            Some(t) => {
                let resolved = self.resolve_alias(t);
                matches!(resolved, Type::Array { .. }) || self.struct_of(t).is_some()
            },
            None => false,
        }
    }

    /// Number of memory words a value of the type takes.
    fn type_size(&self, t: &Type) -> (r: usize)
        ensures
            r as nat == type_size(self@, t@),
    {
        match self.struct_of(t) {
            Some(Type::Struct { fields, .. }) => {
                proof { lemma_fields_view(fields@); }
                fields.len()
            },
            _ => 1,
        }
    }

    /// The type that a pointer or an array holds.
    fn elem_type(&self, t: &Type) -> (r: Option<Type>)
        ensures
            match r {
                Some(u) => elem_type(self@, t@) == Some(u@),
                None => elem_type(self@, t@) is None,
            },
    {
        let resolved = self.resolve_alias(t);
        match resolved {
            Type::Pointer(x) => Some(*x),
            Type::Array { element, .. } => Some(*element),
            _ => None,
        }
    }

    /// The type of an lvalue-like expression, as far as the emitter tracks types.
    fn expr_type(&self, context: &FunctionEmitContext, e: &Expression) -> (r: Option<Type>)
        ensures
            match r {
                Some(t) => expr_type(self@, context@, *e) == Some(t@),
                None => expr_type(self@, context@, *e) is None,
            },
        decreases e, 0nat,
    {
        match e {
            Expression::Identifier { name, .. } => match self.resolve_symbol_label(context, name) {
                Ok(l) => match self.label_types.get(&l) {
                    Some(t) => Some(copy_type(t)),
                    None => None,
                },
                Err(_) => None,
            },
            Expression::Unary { op: UnaryOp::Dereference, expr, .. } => match self.expr_type(context, expr) {
                Some(t) => self.elem_type(&t),
                None => None,
            },
            Expression::Index { base, .. } => match self.expr_type(context, base) {
                Some(t) => self.elem_type(&t),
                None => None,
            },
            Expression::MemberAccess { base, member, through_pointer, .. } => {
                match self.member_struct(context, base, *through_pointer) {
                    Some(Type::Struct { fields, .. }) => {
                        proof { lemma_fields_view(fields@); }
                        match field_position(&fields, member) {
                            Some(i) => Some(copy_type(&fields[i].ty)),
                            None => None,
                        }
                    },
                    _ => None,
                }
            },
            _ => None,
        }
    }

    /// The struct type that `base.m` (or `base->m`) reads from.
    fn member_struct(&self, context: &FunctionEmitContext, base: &Expression, through_pointer: bool) -> (r: Option<Type>)
        ensures
            match r {
                Some(u) => u@ matches TypeView::Struct(_, fs) && member_fields(self@, context@, *base, through_pointer) == Some(fs),
                None => member_fields(self@, context@, *base, through_pointer) is None,
            },
        decreases base, 1nat,
    {
        match self.expr_type(context, base) {
            Some(t) => if through_pointer {
                match self.elem_type(&t) {
                    Some(u) => self.struct_of(&u),
                    None => None,
                }
            } else {
                self.struct_of(&t)
            },
            None => None,
        }
    }

    /// Words per element of the array or pointer indexed by `h`.
    fn index_scale(&self, context: &FunctionEmitContext, h: &Expression) -> (r: usize)
        ensures
            r as nat == index_scale(self@, context@, *h),
    {
        match h {
            Expression::Index { base, .. } => match self.expr_type(context, base) {
                Some(t) => match self.elem_type(&t) {
                    Some(u) => self.type_size(&u),
                    None => 1,
                },
                None => 1,
            },
            _ => 1,
        }
    }

    /// Records the struct defined in a declared type.
    fn record_definitions(&mut self, t: &Type)
        ensures
            final(self)@ == record_definitions(old(self)@, t@),
        decreases t,
    {
        match t {
            Type::Struct { name, fields } => {
                proof { lemma_fields_view(fields@); }
                if fields.len() > 0 {
                    self.structs.insert(name.clone(), copy_type(t));
                }
            },
            Type::Enum { enumerators, .. } => {
                let ghost before = self.enum_consts@;
                let mut i: usize = 0;
                while i < enumerators.len()
                    invariant
                        0 <= i <= enumerators.len(),
                        self@ == (EmitView { enum_consts: before + enumerators_view(enumerators@.take(i as int)), ..old(self)@ }),
                    decreases enumerators.len() - i,
                {
                    self.enum_consts.insert(enumerators[i].name.clone(), enumerators[i].value);
                    assert(enumerators_view(enumerators@.take(i + 1)) =~= enumerators_view(enumerators@.take(i as int)).push(
                        (enumerators@[i as int].name@, enumerators@[i as int].value)));
                    i += 1;
                }
                assert(enumerators@.take(enumerators.len() as int) =~= enumerators@);
            },
            Type::Pointer(x) => self.record_definitions(x),
            Type::Array { element, .. } => self.record_definitions(element),
            _ => {},
        }
    }

    /// The storage label of a symbol: local scopes (innermost first), then globals.
    fn resolve_symbol_label(&self, context: &FunctionEmitContext, name: &String) -> (r: Result<String, CompilerError>)
        ensures
            match resolve(self@, context@, name@) {
                Ok(l) => r matches Ok(x) && x@ == l,
                Err(f) => r matches Err(e) && fault_error(e, f),
            },
    {
        let ghost scopes = context@.scopes;
        let mut i = context.scopes.len();
        assert(scopes.take(i as int) =~= scopes);
        while i > 0
            invariant
                i <= context.scopes.len(),
                scopes == context@.scopes,
                lookup_scopes(scopes, name@) == lookup_scopes(scopes.take(i as int), name@),
            decreases i,
        {
            let ghost t = scopes.take(i as int);
            assert(t.last() == context.scopes@[i - 1]@);
            assert(t.drop_last() =~= scopes.take(i - 1));
            if let Some(label) = context.scopes[i - 1].get(name) {
                return Ok(label.clone());
            }
            i -= 1;
        }
        if let Some(g) = self.globals.get(name) {
            return Ok(g.clone());
        }
        Err(CompilerError::semantic(concat3("unresolved symbol '", name.as_str(), "' during codegen")))
    }

    fn emit_helper_call(&mut self, helper: &str, lhs_cell: &str, lt: &String, rt: &String)
        ensures
            final(self)@ == with_instrs(old(self)@, helper_call_lines(helper@, lhs_cell@, lt@, rt@)),
    {
        let v = vec![concat2("Load ", lt.as_str()), concat3("Store ", helper, lhs_cell), concat2("Load ", rt.as_str()),
            concat3("Store ", helper, "_rhs"), concat2("JnS ", helper), concat3("Load ", helper, "_ret")];
        assert(v@.map_values(|l: String| l@) =~= helper_call_lines(helper@, lhs_cell@, lt@, rt@));
        self.instructions.extend(v);
    }

    /// Applies a binary operator to the operands in the cells `lt` and `rt`.
    fn emit_binop(&mut self, op: BinaryOp, lt: &String, rt: &String) -> (r: Result<(), CompilerError>)
        ensures
            emitted(binop(old(self)@, op, lt@, rt@), r, final(self)@),
    {
        match op {
            BinaryOp::Add => {
                self.push_instr(concat2("Add ", rt.as_str()));
            },
            BinaryOp::Subtract => {
                self.push_instr(concat2("Subt ", rt.as_str()));
            },
            BinaryOp::Equal | BinaryOp::NotEqual | BinaryOp::Less | BinaryOp::LessEqual | BinaryOp::Greater
            | BinaryOp::GreaterEqual | BinaryOp::LogicalAnd | BinaryOp::LogicalOr => {
                self.ensure_zero_const();
                self.ensure_one_const();
                let a = self.next_label_id();
                let b = self.next_label_id();
                let lines = comparison_lines(op, lt, rt, a, b);
                self.instructions.extend(lines);
            },
            BinaryOp::Multiply => {
                self.needs_mul_helper = true;
                self.emit_helper_call("helper_mul", "_lhs", lt, rt);
            },
            BinaryOp::Modulo => {
                self.needs_mod_helper = true;
                self.emit_helper_call("helper_mod", "_lhs", lt, rt);
            },
            BinaryOp::Divide => {
                self.needs_div_helper = true;
                self.emit_helper_call("helper_div", "_dividend", lt, rt);
            },
            BinaryOp::ShiftLeft | BinaryOp::ShiftRight | BinaryOp::BitwiseAnd | BinaryOp::BitwiseOr
            | BinaryOp::BitwiseXor => {
                return Err(CompilerError::unsupported(concat3("binary operator ", op_name(op), " not supported by target")));
            },
        }
        Ok(())
    }
}

} // verus!

verus! {

pub proof fn lemma_args_prefix_fail(s: EmitView, c: EmitContextView, args: Seq<Expression>, k: int)
    requires
        0 <= k <= args.len(),
        sp_args(s, c, args.take(k)) is Err,
    ensures
        sp_args(s, c, args) == sp_args(s, c, args.take(k)),
    decreases args.len() - k,
{
    if k < args.len() {
        assert(args.take(k + 1).drop_last() =~= args.take(k));
        lemma_args_prefix_fail(s, c, args, k + 1);
    } else {
        assert(args.take(k) =~= args);
    }
}

impl MarieEmitter {
    /// Code that leaves the value of an expression in the accumulator.
    fn emit_expression(&mut self, context: &FunctionEmitContext, expression: &Expression) -> (r: Result<(), CompilerError>)
        ensures
            emitted(sp_expr(old(self)@, context@, *expression), r, final(self)@),
        decreases expression, 3nat,
    {
        match expression {
            Expression::Identifier { name, .. } => {
                match self.resolve_symbol_label(context, name) {
                    Ok(label) => {
                        self.push_instr(concat2("Load ", label.as_str()));
                        Ok(())
                    },
                    Err(e) => match self.enum_consts.get(name) {
                        Some(v) => {
                            let value = *v;
                            let label = self.ensure_int_const(value);
                            self.push_instr(concat2("Load ", label.as_str()));
                            Ok(())
                        },
                        None => Err(e),
                    },
                }
            },
            Expression::IntegerLiteral { value, .. } => {
                let label = self.ensure_int_const(*value);
                self.push_instr(concat2("Load ", label.as_str()));
                Ok(())
            },
            Expression::Unary { .. } => self.emit_unary(context, expression),
            Expression::Binary { .. } => self.emit_binary(context, expression),
            Expression::Assignment { .. } => self.emit_assignment(context, expression),
            Expression::Call { .. } => self.emit_call(context, expression),
            Expression::Index { .. } => {
                self.emit_index_address(context, expression)?;
                self.push_instr_str("LoadI helper_addr");
                Ok(())
            },
            Expression::ArrayInitializer { .. } => Err(CompilerError::semantic(
                str_to_string("array initializer should not be emitted directly"),
            )),
            Expression::MemberAccess { .. } => {
                self.emit_member_address(context, expression)?;
                self.push_instr_str("Store helper_addr");
                self.push_instr_str("LoadI helper_addr");
                Ok(())
            },
            Expression::IncDec { .. } => self.emit_incdec(context, expression),
        }
    }

    /// Code that leaves the address of the first word of a struct lvalue in the accumulator.
    fn emit_struct_address(&mut self, context: &FunctionEmitContext, x: &Expression) -> (r: Result<(), CompilerError>)
        ensures
            emitted(sp_struct_address(old(self)@, context@, *x), r, final(self)@),
        decreases x, 2nat,
    {
        match x {
            Expression::Identifier { name, .. } => {
                let label = self.resolve_symbol_label(context, name)?;
                self.push_instr(concat2("Load ", label.as_str()));
                Ok(())
            },
            Expression::Index { .. } => {
                self.emit_index_address(context, x)?;
                self.push_instr_str("Load helper_addr");
                Ok(())
            },
            Expression::Unary { op: UnaryOp::Dereference, expr, .. } => self.emit_expression(context, expr),
            _ => Err(CompilerError::unsupported(str_to_string("member access not supported by target"))),
        }
    }

    /// Code that leaves the address of the field that a member access names in the accumulator.
    fn emit_member_address(&mut self, context: &FunctionEmitContext, m: &Expression) -> (r: Result<(), CompilerError>)
        ensures
            emitted(sp_member_address(old(self)@, context@, *m), r, final(self)@),
        decreases m, 1nat,
    {
        match m {
            Expression::MemberAccess { base, member, through_pointer, .. } => {
                self.ensure_index_cells();
                let st = self.member_struct(context, base, *through_pointer);
                let fields = match st {
                    Some(Type::Struct { fields, .. }) => fields,
                    _ => {
                        return Err(CompilerError::unsupported(str_to_string("member access not supported by target")));
                    },
                };
                let position = match field_position(&fields, member) {
                    Some(i) => i,
                    None => {
                        return Err(CompilerError::unsupported(str_to_string("member access not supported by target")));
                    },
                };
                if *through_pointer {
                    self.emit_expression(context, base)?;
                } else {
                    self.emit_struct_address(context, base)?;
                }
                if position > 0 {
                    let label = self.ensure_int_const(position as i64);
                    self.push_instr(concat2("Add ", label.as_str()));
                }
                Ok(())
            },
            _ => Ok(()),
        }
    }

    /// Adds or subtracts one to the cell whose address is in `helper_addr`.
    fn emit_incdec_indirect(&mut self, decrement: bool, prefix: bool)
        ensures
            final(self)@ == incdec_indirect(old(self)@, decrement, prefix),
    {
        self.ensure_one_const();
        let step = if decrement { "Subt const_one" } else { "Add const_one" };
        if prefix {
            self.push_instr_str("LoadI helper_addr");
            self.push_instr_str(step);
            self.push_instr_str("StoreI helper_addr");
        } else {
            let temp = concat2("tmp_inc_", label_number(self.next_label_id()).as_str());
            self.push_data(concat2(temp.as_str(), ", DEC 0"));
            self.push_instr_str("LoadI helper_addr");
            self.push_instr(concat2("Store ", temp.as_str()));
            self.push_instr_str(step);
            self.push_instr_str("StoreI helper_addr");
            self.push_instr(concat2("Load ", temp.as_str()));
        }
    }

    fn emit_incdec(&mut self, context: &FunctionEmitContext, e: &Expression) -> (r: Result<(), CompilerError>)
        ensures
            emitted(sp_incdec(old(self)@, context@, *e), r, final(self)@),
        decreases e, 2nat,
    {
        match e {
            Expression::IncDec { target, decrement, prefix, .. } => match &**target {
                Expression::Identifier { name, .. } => {
                    let label = self.resolve_symbol_label(context, name)?;
                    self.ensure_one_const();
                    let step = if *decrement { "Subt const_one" } else { "Add const_one" };
                    if *prefix {
                        self.push_instr(concat2("Load ", label.as_str()));
                        self.push_instr_str(step);
                        self.push_instr(concat2("Store ", label.as_str()));
                    } else {
                        let temp = concat2("tmp_inc_", label_number(self.next_label_id()).as_str());
                        self.push_data(concat2(temp.as_str(), ", DEC 0"));
                        self.push_instr(concat2("Load ", label.as_str()));
                        self.push_instr(concat2("Store ", temp.as_str()));
                        self.push_instr_str(step);
                        self.push_instr(concat2("Store ", label.as_str()));
                        self.push_instr(concat2("Load ", temp.as_str()));
                    }
                    Ok(())
                },
                Expression::Index { .. } => {
                    self.emit_index_address(context, target)?;
                    self.emit_incdec_indirect(*decrement, *prefix);
                    Ok(())
                },
                Expression::Unary { op: UnaryOp::Dereference, expr, .. } => {
                    self.ensure_index_cells();
                    self.emit_expression(context, expr)?;
                    self.push_instr_str("Store helper_addr");
                    self.emit_incdec_indirect(*decrement, *prefix);
                    Ok(())
                },
                Expression::MemberAccess { .. } => {
                    self.emit_member_address(context, target)?;
                    self.push_instr_str("Store helper_addr");
                    self.emit_incdec_indirect(*decrement, *prefix);
                    Ok(())
                },
                _ => Err(CompilerError::semantic(str_to_string("unsupported increment or decrement target in codegen"))),
            },
            _ => Ok(()),
        }
    }

    /// Multiplies the index in the accumulator (already in `helper_index`) by `scale`.
    fn emit_scale(&mut self, scale: usize)
        ensures
            final(self)@ == with_instrs(old(self)@, scale_lines(scale as nat)),
    {
        let ghost s1 = self@;
        if scale > 1 {
            let mut k: usize = 1;
            while k < scale
                invariant
                    1 <= k <= scale,
                    self@ =~= with_instrs(s1, Seq::new((k - 1) as nat, |i: int| "Add helper_index"@)),
                decreases scale - k,
            {
                self.push_instr_str("Add helper_index");
                assert(Seq::new(k as nat, |i: int| "Add helper_index"@)
                    =~= Seq::new((k - 1) as nat, |i: int| "Add helper_index"@).push("Add helper_index"@));
                k += 1;
            }
            self.push_instr_str("Store helper_index");
            assert(self@ =~= with_instrs(s1, scale_lines(scale as nat)));
        } else {
            assert(self@ =~= with_instrs(s1, scale_lines(scale as nat)));
        }
    }

    /// Code that leaves the address of `base[index]` in `helper_addr`.
    fn emit_index_address(&mut self, context: &FunctionEmitContext, h: &Expression) -> (r: Result<(), CompilerError>)
        ensures
            emitted(sp_index_address(old(self)@, context@, *h), r, final(self)@),
        decreases h, 1nat,
    {
        match h {
            Expression::Index { base, index, .. } => {
                let scale = self.index_scale(context, h);
                self.ensure_index_cells();
                self.emit_expression(context, index)?;
                self.push_instr_str("Store helper_index");
                self.emit_scale(scale);
                self.emit_expression(context, base)?;
                self.push_instr_str("Add helper_index");
                self.push_instr_str("Store helper_addr");
                Ok(())
            },
            _ => Ok(()),
        }
    }

    fn emit_unary(&mut self, context: &FunctionEmitContext, e: &Expression) -> (r: Result<(), CompilerError>)
        ensures
            emitted(sp_unary(old(self)@, context@, *e), r, final(self)@),
        decreases e, 2nat,
    {
        match e {
            Expression::Unary { op, expr, .. } => match op {
                UnaryOp::LogicalNot => {
                    self.emit_expression(context, expr)?;
                    self.ensure_int_const(0);
                    self.ensure_int_const(1);
                    let true_label = concat3("unary_not_", label_number(self.next_label_id()).as_str(), "_true");
                    let end_label = concat3("unary_not_", label_number(self.next_label_id()).as_str(), "_end");
                    self.push_instr_str("Skipcond 400");
                    self.push_instr(concat2("Jump ", true_label.as_str()));
                    self.push_instr_str("Load const_one");
                    self.push_instr(concat2("Jump ", end_label.as_str()));
                    self.push_instr(concat2(true_label.as_str(), ", Load const_zero"));
                    self.push_instr(concat2(end_label.as_str(), ", Add const_zero"));
                    Ok(())
                },
                UnaryOp::AddressOf => self.emit_address_of(context, expr),
                UnaryOp::Dereference => {
                    self.ensure_index_cells();
                    self.emit_expression(context, expr)?;
                    self.push_instr_str("Store helper_addr");
                    self.push_instr_str("LoadI helper_addr");
                    Ok(())
                },
                UnaryOp::Plus => self.emit_expression(context, expr),
                UnaryOp::Minus => {
                    self.emit_expression(context, expr)?;
                    self.ensure_zero_const();
                    let temp = concat2("tmp_", label_number(self.next_label_id()).as_str());
                    self.push_data(concat2(temp.as_str(), ", DEC 0"));
                    self.push_instr(concat2("Store ", temp.as_str()));
                    self.push_instr_str("Load const_zero");
                    self.push_instr(concat2("Subt ", temp.as_str()));
                    Ok(())
                },
            },
            _ => Ok(()),
        }
    }

    /// Code that leaves the address of an lvalue in the accumulator.
    fn emit_address_of(&mut self, context: &FunctionEmitContext, x: &Expression) -> (r: Result<(), CompilerError>)
        ensures
            emitted(sp_address_of(old(self)@, context@, *x), r, final(self)@),
        decreases x, 2nat,
    {
        match x {
            Expression::Identifier { name, .. } => {
                let label = self.resolve_symbol_label(context, name)?;
                if self.label_is_aggregate(&label) {
                    self.push_instr(concat2("Load ", label.as_str()));
                } else {
                    let addr_label = self.ensure_addr_const(&label);
                    self.push_instr(concat2("Load ", addr_label.as_str()));
                }
                Ok(())
            },
            Expression::Index { .. } => {
                self.emit_index_address(context, x)?;
                self.push_instr_str("Load helper_addr");
                Ok(())
            },
            Expression::Unary { op: UnaryOp::Dereference, expr, .. } => self.emit_expression(context, expr),
            Expression::MemberAccess { .. } => self.emit_member_address(context, x),
            _ => Err(CompilerError::semantic(str_to_string("unsupported address-of target in codegen"))),
        }
    }

    #[verifier::rlimit(40)]
    #[verifier::spinoff_prover]
    fn emit_binary(&mut self, context: &FunctionEmitContext, e: &Expression) -> (r: Result<(), CompilerError>)
        ensures
            emitted(sp_binary(old(self)@, context@, *e), r, final(self)@),
        decreases e, 2nat,
    {
        match e {
            Expression::Binary { op, lhs, rhs, .. } => {
                self.emit_expression(context, lhs)?;
                let lhs_temp = concat2("tmp_", label_number(self.next_label_id()).as_str());
                self.push_data(concat2(lhs_temp.as_str(), ", DEC 0"));
                self.push_instr(concat2("Store ", lhs_temp.as_str()));
                self.emit_expression(context, rhs)?;
                let rhs_temp = concat2("tmp_", label_number(self.next_label_id()).as_str());
                self.push_data(concat2(rhs_temp.as_str(), ", DEC 0"));
                self.push_instr(concat2("Store ", rhs_temp.as_str()));
                self.push_instr(concat2("Load ", lhs_temp.as_str()));
                self.emit_binop(*op, &lhs_temp, &rhs_temp)
            },
            _ => Ok(()),
        }
    }

    /// Stores the accumulator, the value being assigned, in a fresh `tmp_` cell.
    fn spill_value(&mut self) -> (r: String)
        ensures
            (final(self)@, r@) == spill_value(old(self)@),
    {
        self.ensure_index_cells();
        let temp = concat2("tmp_", label_number(self.next_label_id()).as_str());
        self.push_data(concat2(temp.as_str(), ", DEC 0"));
        self.push_instr(concat2("Store ", temp.as_str()));
        temp
    }

    fn emit_assignment(&mut self, context: &FunctionEmitContext, e: &Expression) -> (r: Result<(), CompilerError>)
        ensures
            emitted(sp_assignment(old(self)@, context@, *e), r, final(self)@),
        decreases e, 2nat,
    {
        match e {
            Expression::Assignment { target, value, .. } => {
                self.emit_expression(context, value)?;
                match &**target {
                    Expression::Identifier { name, .. } => {
                        let label = self.resolve_symbol_label(context, name)?;
                        self.push_instr(concat2("Store ", label.as_str()));
                    },
                    Expression::Index { .. } => {
                        let temp = self.spill_value();
                        self.emit_index_address(context, target)?;
                        self.push_instr(concat2("Load ", temp.as_str()));
                        self.push_instr_str("StoreI helper_addr");
                    },
                    Expression::Unary { op: UnaryOp::Dereference, expr, .. } => {
                        let temp = self.spill_value();
                        self.emit_expression(context, expr)?;
                        self.push_instr_str("Store helper_addr");
                        self.push_instr(concat2("Load ", temp.as_str()));
                        self.push_instr_str("StoreI helper_addr");
                    },
                    Expression::MemberAccess { .. } => {
                        let temp = self.spill_value();
                        self.emit_member_address(context, target)?;
                        self.push_instr_str("Store helper_addr");
                        self.push_instr(concat2("Load ", temp.as_str()));
                        self.push_instr_str("StoreI helper_addr");
                    },
                    _ => {
                        return Err(CompilerError::semantic(str_to_string("unsupported assignment target in codegen")));
                    },
                }
                Ok(())
            },
            _ => Ok(()),
        }
    }

    #[verifier::loop_isolation(false)]
    fn emit_call(&mut self, context: &FunctionEmitContext, e: &Expression) -> (r: Result<(), CompilerError>)
        ensures
            emitted(sp_call(old(self)@, context@, *e), r, final(self)@),
        decreases e, 2nat,
    {
        match e {
            Expression::Call { callee, args, .. } => {
                let function_name = match &**callee {
                    Expression::Identifier { name, .. } => name,
                    _ => {
                        return Err(CompilerError::semantic(str_to_string("call target must be a function identifier")));
                    },
                };
                let count = match self.functions.get(function_name) {
                    Some(c) => *c,
                    None => {
                        return Err(CompilerError::semantic(
                            concat3("missing planned function '", function_name.as_str(), "' in codegen"),
                        ));
                    },
                };
                let ghost s0 = self@;
                let mut temps: Vec<String> = Vec::new();
                let mut i: usize = 0;
                while i < args.len()
                    invariant
                        0 <= i <= args.len(),
                        sp_args(s0, context@, args@.take(i as int)) matches Ok(p)
                            && p.0 =~= self@ && p.1 == temps@.map_values(|t: String| t@),
                    decreases args.len() - i,
                {
                    proof {
                        assert(decreases_to!(*e => *args));
                        assert(decreases_to!(*args => args@));
                        assert(decreases_to!(args@ => args@[i as int]));
                    }
                    let ghost t = args@.take(i + 1);
                    assert(t.drop_last() =~= args@.take(i as int));
                    assert(t.last() == args@[i as int]);
                    let ghost before = temps@;
                    let r = self.emit_expression(context, &args[i]);
                    if r.is_err() {
                        proof {
                            lemma_args_prefix_fail(s0, context@, args@, i + 1);
                        }
                        return r;
                    }
                    let temp = concat2("tmp_", label_number(self.next_label_id()).as_str());
                    self.push_data(concat2(temp.as_str(), ", DEC 0"));
                    self.push_instr(concat2("Store ", temp.as_str()));
                    temps.push(temp);
                    assert(temps@.map_values(|t: String| t@) =~= before.map_values(|t: String| t@).push(temps@.last()@));
                    i += 1;
                }
                assert(args@.take(args.len() as int) =~= args@);
                let ghost s1 = self@;
                let ghost ts = temps@.map_values(|t: String| t@);
                let mut j: usize = 0;
                while j < temps.len()
                    invariant
                        0 <= j <= temps.len(),
                        ts == temps@.map_values(|t: String| t@),
                        self@ =~= with_instrs(s1, param_stores(ts.take(j as int), function_name@, count)),
                    decreases temps.len() - j,
                {
                    let ghost u = ts.take(j + 1);
                    assert(u.drop_last() =~= ts.take(j as int));
                    assert(u.last() == temps@[j as int]@);
                    if j < count {
                        self.push_instr(concat2("Load ", temps[j].as_str()));
                        let param = concat3("fn_", function_name.as_str(), "_param_");
                        let mut line = concat2("Store ", param.as_str());
                        push_str(&mut line, label_number(j).as_str());
                        assert(line@ =~= "Store "@ + param_label(function_name@, j as int));
                        self.push_instr(line);
                    }
                    assert(with_instrs(s1, param_stores(u, function_name@, count)).instructions
                        =~= self@.instructions);
                    j += 1;
                }
                assert(ts.take(temps.len() as int) =~= ts);
                self.push_instr(concat2("JnS ", concat2("fn_", function_name.as_str()).as_str()));
                self.push_instr(concat2("Load ", concat3("fn_", function_name.as_str(), "_ret").as_str()));
                Ok(())
            },
            _ => Ok(()),
        }
    }
}

} // verus!

verus! {

/// Values of the constant expressions at the front of an initializer, for array cells.
fn leading_constant_values(init: &Option<Expression>) -> (r: Vec<i128>)
    ensures
        r@.map_values(|v: i128| v as int) == array_initial_values(*init),
        forall|k: int| 0 <= k < r@.len() ==> -0x8000_0000_0000_0000 <= #[trigger] r@[k] <= 0x8000_0000_0000_0000,
{
    let mut vals: Vec<i128> = Vec::new();
    match init {
        Some(Expression::ArrayInitializer { elements, .. }) => {
            let ghost es = elements@;
            let mut i: usize = 0;
            let mut stop = false;
            assert(es.skip(0) =~= es);
            while i < elements.len() && !stop
                invariant
                    0 <= i <= elements.len(),
                    es == elements@,
                    leading_constants(es) == vals@.map_values(|v: i128| v as int) + leading_constants(es.skip(i as int)),
                    stop ==> leading_constants(es.skip(i as int)) == Seq::<int>::empty(),
                    forall|k: int| 0 <= k < vals@.len() ==> -0x8000_0000_0000_0000 <= #[trigger] vals@[k] <= 0x8000_0000_0000_0000,
                decreases elements.len() - i + (if stop { 0int } else { 1int }),
            {
                let ghost rest = es.skip(i as int);
                assert(rest[0] == es[i as int]);
                match evaluate_constant(&elements[i]) {
                    Some(value) => {
                        assert(rest.skip(1) =~= es.skip(i + 1));
                        let ghost before = vals@;
                        vals.push(value);
                        assert(vals@.map_values(|v: i128| v as int) =~= before.map_values(|v: i128| v as int).push(value as int));
                        assert(leading_constants(es) =~= vals@.map_values(|v: i128| v as int) + leading_constants(es.skip(i + 1)));
                        i += 1;
                    },
                    None => {
                        stop = true;
                    },
                }
            }
            if !stop {
                assert(es.skip(i as int) =~= Seq::<Expression>::empty());
            }
            assert(leading_constants(es) =~= vals@.map_values(|v: i128| v as int));
            vals
        },
        _ => {
            assert(vals@.map_values(|v: i128| v as int) =~= Seq::<int>::empty());
            vals
        },
    }
}

/// Decimal notation of a constant's value.
fn constant_text(v: i128) -> (r: String)
    requires
        -0x8000_0000_0000_0000 <= v <= 0x8000_0000_0000_0000,
    ensures
        r@ == dec_int(v as int),
{
    if v < 0 {
        proof {
            reveal_strlit("-");
        }
        concat2("-", u64_to_decimal((-v) as u64).as_str())
    } else {
        u64_to_decimal(v as u64)
    }
}

/// Whether a character is one that `char::is_whitespace` accepts.
fn is_white_char(c: char) -> (r: bool)
    ensures
        r == is_white(c),
{
    c == ' ' || ('\t' <= c && c <= '\r') || c == '\u{85}' || c == '\u{A0}' || c == '\u{1680}'
        || ('\u{2000}' <= c && c <= '\u{200A}') || c == '\u{2028}' || c == '\u{2029}'
        || c == '\u{202F}' || c == '\u{205F}' || c == '\u{3000}'
}

/// Whether a text is empty once surrounding whitespace is trimmed.
fn is_blank(s: &String) -> (r: bool)
    ensures
        r == all_white(s@),
{
    let cs = chars_of(s.as_str());
    let mut i: usize = 0;
    while i < cs.len()
        invariant
            0 <= i <= cs.len(),
            cs@ == s@,
            forall|j: int| 0 <= j < i ==> is_white(#[trigger] cs@[j]),
        decreases cs.len() - i,
    {
        if !is_white_char(cs[i]) {
            return false;
        }
        i += 1;
    }
    true
}

/// Whether a byte may start an identifier.
pub fn is_identifier_start_byte(byte: u8) -> (r: bool)
    ensures
        r == (byte == 95 || (65 <= byte && byte <= 90) || (97 <= byte && byte <= 122)),
{
    byte == 95 || (65 <= byte && byte <= 90) || (97 <= byte && byte <= 122)
}

/// Whether a byte may continue an identifier.
pub fn is_identifier_continue_byte(byte: u8) -> (r: bool)
    ensures
        r == (byte == 95 || (65 <= byte && byte <= 90) || (97 <= byte && byte <= 122) || (48 <= byte && byte <= 57)),
{
    byte == 95 || (65 <= byte && byte <= 90) || (97 <= byte && byte <= 122) || (48 <= byte && byte <= 57)
}

fn ident_start_char(c: char) -> (r: bool)
    ensures
        r == is_ident_start(c),
{
    let code = c as u32;
    code < 128 && is_identifier_start_byte(code as u8)
}

fn ident_continue_char(c: char) -> (r: bool)
    ensures
        r == is_ident_continue(c),
{
    let code = c as u32;
    code < 128 && is_identifier_continue_byte(code as u8)
}

/// The lines of a text, as `str::lines` splits it.
fn split_lines(text: &Vec<char>) -> (r: Vec<Vec<char>>)
    ensures
        r@.map_values(|l: Vec<char>| l@) == text_lines(text@),
{
    let mut done: Vec<Vec<char>> = Vec::new();
    let mut cur: Vec<char> = Vec::new();
    let mut i: usize = 0;
    assert(text@.take(0) =~= Seq::<char>::empty());
    while i < text.len()
        invariant
            0 <= i <= text.len(),
            lines_acc(text@.take(i as int)) == (done@.map_values(|l: Vec<char>| l@), cur@),
        decreases text.len() - i,
    {
        let ghost t = text@.take(i + 1);
        assert(t.drop_last() =~= text@.take(i as int));
        assert(t.last() == text@[i as int]);
        let c = text[i];
        if c == '\n' {
            let ghost before = cur@;
            if cur.len() > 0 && cur[cur.len() - 1] == '\r' {
                cur.pop();
                assert(cur@ =~= before.drop_last());
            }
            assert(cur@ == strip_cr(before));
            let line = cur;
            let ghost old_done = done@.map_values(|l: Vec<char>| l@);
            done.push(line);
            assert(done@.map_values(|l: Vec<char>| l@) =~= old_done.push(strip_cr(before)));
            cur = Vec::new();
            assert(cur@ =~= Seq::<char>::empty());
        } else {
            cur.push(c);
        }
        i += 1;
    }
    assert(text@.take(text.len() as int) =~= text@);
    if cur.len() > 0 {
        let ghost old_done = done@.map_values(|l: Vec<char>| l@);
        let ghost last = cur@;
        done.push(cur);
        assert(done@.map_values(|l: Vec<char>| l@) =~= old_done.push(last));
    }
    done
}

pub proof fn lemma_prepend_assoc(a: Seq<char>, b: Seq<char>, r: Result<Seq<char>, EmitFault>)
    ensures
        prepend(a, prepend(b, r)) == prepend(a + b, r),
{
    match r {
        Ok(x) => {
            assert(a + (b + x) =~= (a + b) + x);
        },
        Err(_) => {},
    }
}

pub proof fn lemma_asm_lines_prefix_fail(s: EmitView, c: EmitContextView, lines: Seq<Seq<char>>, k: int)
    requires
        0 <= k <= lines.len(),
        sp_asm_lines(s, c, lines.take(k)) is Err,
    ensures
        sp_asm_lines(s, c, lines) == sp_asm_lines(s, c, lines.take(k)),
    decreases lines.len() - k,
{
    if k < lines.len() {
        assert(lines.take(k + 1).drop_last() =~= lines.take(k));
        lemma_asm_lines_prefix_fail(s, c, lines, k + 1);
    } else {
        assert(lines.take(k) =~= lines);
    }
}

pub proof fn lemma_asm_prefix_fail(s: EmitView, c: EmitContextView, texts: Seq<Seq<char>>, k: int)
    requires
        0 <= k <= texts.len(),
        sp_asm(s, c, texts.take(k)) is Err,
    ensures
        sp_asm(s, c, texts) == sp_asm(s, c, texts.take(k)),
    decreases texts.len() - k,
{
    if k < texts.len() {
        assert(texts.take(k + 1).drop_last() =~= texts.take(k));
        lemma_asm_prefix_fail(s, c, texts, k + 1);
    } else {
        assert(texts.take(k) =~= texts);
    }
}

impl MarieEmitter {
    /// Data cells for a variable.
    fn emit_storage_for_declarator(&mut self, label: &String, ty: &Type, initializer: &Option<Expression>)
        ensures
            final(self)@ =~= sp_storage(old(self)@, label@, ty@, *initializer),
    {
        let resolved = self.resolve_alias(ty);
        match &resolved {
            Type::Array { element, size } => {
                let n: usize = match size {
                    Some(ce) => if ce.value > 0 && (ce.value as u64) <= (usize::MAX as u64) {
                        ce.value as usize
                    } else {
                        1
                    },
                    None => 1,
                };
                assert(n == array_cell_count(*size));
                let k = self.type_size(element);
                let count: usize = match n.checked_mul(k) {
                    Some(v) => v,
                    None => usize::MAX,
                };
                assert(count as nat == array_words(n as nat, k as nat));
                let mut first = concat3(label.as_str(), ", ADR ", label.as_str());
                push_str(&mut first, "_elem_0");
                self.push_data(first);
                let ghost s1 = self@;
                let values = if k == 1 { leading_constant_values(initializer) } else { Vec::new() };
                let ghost vals = values@.map_values(|v: i128| v as int);
                assert(vals == (if k == 1 { array_initial_values(*initializer) } else { Seq::<int>::empty() }));
                let mut index: usize = 0;
                while index < count
                    invariant
                        0 <= index <= count,
                        vals == values@.map_values(|v: i128| v as int),
                        forall|k: int| 0 <= k < values@.len() ==> -0x8000_0000_0000_0000 <= #[trigger] values@[k] <= 0x8000_0000_0000_0000,
                        self@ =~= with_datas(s1, Seq::new(index as nat, |i: int| element_line(label@, vals, i))),
                    decreases count - index,
                {
                    let value: i128 = if index < values.len() {
                        values[index]
                    } else {
                        0
                    };
                    let mut line = concat3(label.as_str(), "_elem_", label_number(index).as_str());
                    push_str(&mut line, ", DEC ");
                    push_str(&mut line, constant_text(value).as_str());
                    assert(line@ =~= element_line(label@, vals, index as int));
                    self.push_data(line);
                    assert(Seq::new((index + 1) as nat, |i: int| element_line(label@, vals, i))
                        =~= Seq::new(index as nat, |i: int| element_line(label@, vals, i)).push(
                        element_line(label@, vals, index as int)));
                    index += 1;
                }
            },
            _ => {
                match self.struct_of(ty) {
                    Some(Type::Struct { fields, .. }) => {
                        proof { lemma_fields_view(fields@); }
                        let mut first = concat3(label.as_str(), ", ADR ", label.as_str());
                        push_str(&mut first, "_field_0");
                        self.push_data(first);
                        let ghost s1 = self@;
                        let mut index: usize = 0;
                        while index < fields.len()
                            invariant
                                0 <= index <= fields.len(),
                                self@ =~= with_datas(s1, Seq::new(index as nat, |i: int| field_line(label@, i))),
                            decreases fields.len() - index,
                        {
                            let mut line = concat3(label.as_str(), "_field_", label_number(index).as_str());
                            push_str(&mut line, ", DEC 0");
                            assert(line@ =~= field_line(label@, index as int));
                            self.push_data(line);
                            assert(Seq::new((index + 1) as nat, |i: int| field_line(label@, i))
                                =~= Seq::new(index as nat, |i: int| field_line(label@, i)).push(field_line(label@, index as int)));
                            index += 1;
                        }
                    },
                    _ => {
                        let value: i128 = match initializer {
                            Some(e) => match evaluate_constant(e) {
                                Some(v) => v,
                                None => 0,
                            },
                            None => 0,
                        };
                        assert(value as int == scalar_initial_value(*initializer));
                        self.push_data(concat3(label.as_str(), ", DEC ", constant_text(value).as_str()));
                    },
                }
            },
        }
    }

    /// An inline assembly line with each `%name` replaced by the storage label of `name`.
    #[verifier::loop_isolation(false)]
    #[verifier::rlimit(40)]
    #[verifier::spinoff_prover]
    fn render_inline_asm_line(&self, context: &FunctionEmitContext, line: &Vec<char>) -> (r: Result<String, CompilerError>)
        ensures
            match render_line(self@, context@, line@) {
                Ok(x) => r matches Ok(o) && o@ == x,
                Err(f) => r matches Err(e) && fault_error(e, f),
            },
    {
        let ghost l = line@;
        let mut output = String::new();
        let mut index: usize = 0;
        assert(l.skip(0) =~= l);
        assert(output@ + Seq::<char>::empty() =~= output@);
        while index < line.len()
            invariant
                0 <= index <= line.len(),
                l == line@,
                render_line(self@, context@, l) == prepend(output@, render_line(self@, context@, l.skip(index as int))),
            decreases line.len() - index,
        {
            let ghost rest = l.skip(index as int);
            assert(rest.len() > 0 && rest[0] == l[index as int]);
            if line[index] == '%' && index + 1 < line.len() && ident_start_char(line[index + 1]) {
                assert(rest[1] == l[index + 1]);
                let start = index + 1;
                let mut end = start + 1;
                let mut name = String::new();
                push_char(&mut name, line[start]);
                assert(name@ =~= l.subrange(start as int, end as int));
                proof {
                    lemma_ident_end(rest, 2);
                }
                while end < line.len() && ident_continue_char(line[end])
                    invariant
                        start + 1 <= end <= line.len(),
                        start == index + 1,
                        l == line@,
                        rest == l.skip(index as int),
                        name@ == l.subrange(start as int, end as int),
                        ident_end(rest, (end - index) as int) == ident_end(rest, 2),
                    decreases line.len() - end,
                {
                    assert(rest[(end - index) as int] == l[end as int]);
                    push_char(&mut name, line[end]);
                    assert(name@ =~= l.subrange(start as int, end + 1));
                    end += 1;
                }
                assert(end < line.len() ==> rest[(end - index) as int] == l[end as int]);
                assert(ident_end(rest, (end - index) as int) == (end - index) as int);
                assert(rest.subrange(1, (end - index) as int) =~= l.subrange(start as int, end as int));
                assert(rest.skip((end - index) as int) =~= l.skip(end as int));
                let label = self.resolve_symbol_label(context, &name)?;
                assert(render_line(self@, context@, rest) == prepend(label@, render_line(self@, context@, l.skip(end as int))));
                proof {
                    lemma_prepend_assoc(output@, label@, render_line(self@, context@, l.skip(end as int)));
                }
                push_str(&mut output, label.as_str());
                index = end;
            } else {
                assert(index + 1 < line.len() ==> rest[1] == l[index + 1]);
                assert(rest.skip(1) =~= l.skip(index + 1));
                assert(render_line(self@, context@, rest) == prepend(seq![l[index as int]], render_line(self@, context@, l.skip(index + 1))));
                proof {
                    lemma_prepend_assoc(output@, seq![l[index as int]], render_line(self@, context@, l.skip(index + 1)));
                }
                let ghost before = output@;
                push_char(&mut output, line[index]);
                assert(output@ =~= before + seq![l[index as int]]);
                index += 1;
            }
        }
        assert(l.skip(line.len() as int) =~= Seq::<char>::empty());
        assert(output@ + Seq::<char>::empty() =~= output@);
        Ok(output)
    }

    /// Rendered inline assembly, one line per instruction line that is not blank.
    #[verifier::loop_isolation(false)]
    fn emit_inline_asm(&mut self, context: &FunctionEmitContext, instructions: &Vec<String>) -> (r: Result<(), CompilerError>)
        ensures
            emitted(sp_asm(old(self)@, context@, instructions@.map_values(|t: String| t@)), r, final(self)@),
    {
        let ghost texts = instructions@.map_values(|t: String| t@);
        let ghost s0 = self@;
        assert(texts.len() == instructions.len());
        let mut k: usize = 0;
        while k < instructions.len()
            invariant
                0 <= k <= instructions.len(),
                texts == instructions@.map_values(|t: String| t@),
                sp_asm(s0, context@, texts.take(k as int)) matches Ok(x) && x =~= self@,
            decreases instructions.len() - k,
        {
            let ghost t = texts.take(k + 1);
            assert(t.drop_last() =~= texts.take(k as int));
            assert(t.last() == instructions@[k as int]@);
            let ghost s1 = self@;
            let lines = split_lines(&chars_of(instructions[k].as_str()));
            let ghost ls = lines@.map_values(|l: Vec<char>| l@);
            let mut j: usize = 0;
            while j < lines.len()
                invariant
                    0 <= j <= lines.len(),
                    ls == lines@.map_values(|l: Vec<char>| l@),
                    sp_asm_lines(s1, context@, ls.take(j as int)) matches Ok(x) && x =~= self@,
                decreases lines.len() - j,
            {
                let ghost u = ls.take(j + 1);
                assert(u.drop_last() =~= ls.take(j as int));
                assert(u.last() == lines@[j as int]@);
                let rendered = match self.render_inline_asm_line(context, &lines[j]) {
                    Ok(x) => x,
                    Err(e) => {
                        proof {
                            lemma_asm_lines_prefix_fail(s1, context@, ls, j + 1);
                            assert(ls.take(ls.len() as int) =~= ls);
                            lemma_asm_prefix_fail(s0, context@, texts, k + 1);
                        }
                        return Err(e);
                    },
                };
                if !is_blank(&rendered) {
                    self.push_instr(rendered);
                }
                j += 1;
            }
            assert(ls.take(lines.len() as int) =~= ls);
            k += 1;
        }
        assert(texts.take(instructions.len() as int) =~= texts);
        Ok(())
    }
}

} // verus!

verus! {

pub proof fn lemma_items_prefix_fail(s: EmitView, c: EmitContextView, items: Seq<BlockItem>, k: int)
    requires
        0 <= k <= items.len(),
        sp_items(s, c, items.take(k)) is Err,
    ensures
        sp_items(s, c, items) == sp_items(s, c, items.take(k)),
    decreases items.len() - k,
{
    if k < items.len() {
        assert(items.take(k + 1).drop_last() =~= items.take(k));
        lemma_items_prefix_fail(s, c, items, k + 1);
    } else {
        assert(items.take(k) =~= items);
    }
}

pub proof fn lemma_locals_prefix_fail(s: EmitView, c: EmitContextView, ds: Seq<Declarator>, k: int)
    requires
        0 <= k <= ds.len(),
        sp_locals(s, c, ds.take(k)) is Err,
    ensures
        sp_locals(s, c, ds) == sp_locals(s, c, ds.take(k)),
    decreases ds.len() - k,
{
    if k < ds.len() {
        assert(ds.take(k + 1).drop_last() =~= ds.take(k));
        lemma_locals_prefix_fail(s, c, ds, k + 1);
    } else {
        assert(ds.take(k) =~= ds);
    }
}

impl FunctionEmitContext {
    /// Binds `name` to `label` in the innermost scope.
    fn bind(&mut self, name: &String, label: &String)
        ensures
            final(self)@ =~= bind_local(old(self)@, name@, label@),
    {
        if self.scopes.len() > 0 {
            let ghost before = self.scopes@;
            let mut last = self.scopes.pop().unwrap();
            last.insert(name.clone(), label.clone());
            self.scopes.push(last);
            assert(self.scopes@.map_values(|m: SymbolMap<String>| m@) =~= before.map_values(|m: SymbolMap<String>| m@).update(
                before.len() - 1, before.map_values(|m: SymbolMap<String>| m@).last().push((name@, label@))));
        }
    }

    fn push_scope(&mut self)
        ensures
            final(self)@ =~= push_scope(old(self)@),
    {
        let ghost before = self.scopes@;
        self.scopes.push(SymbolMap::new());
        assert(self.scopes@.map_values(|m: SymbolMap<String>| m@) =~= before.map_values(|m: SymbolMap<String>| m@).push(
            Seq::empty()));
    }

    fn pop_scope(&mut self)
        ensures
            final(self)@ =~= pop_scope(old(self)@),
    {
        let ghost before = self.scopes@;
        if self.scopes.len() > 0 {
            self.scopes.pop();
            assert(self.scopes@.map_values(|m: SymbolMap<String>| m@) =~= before.map_values(|m: SymbolMap<String>| m@).drop_last());
        }
    }
}

impl MarieEmitter {
    fn emit_opt_expression(&mut self, context: &FunctionEmitContext, e: &Option<Expression>) -> (r: Result<(), CompilerError>)
        ensures
            emitted(sp_opt_expr(old(self)@, context@, *e), r, final(self)@),
    {
        match e {
            Some(x) => self.emit_expression(context, x),
            None => Ok(()),
        }
    }

    /// A local declarator: its cells, its binding, then code for a scalar initializer.
    fn emit_local(&mut self, context: &mut FunctionEmitContext, declarator: &Declarator) -> (r: Result<(), CompilerError>)
        ensures
            emitted_in(sp_local(old(self)@, old(context)@, *declarator), r, final(self)@, final(context)@),
    {
        let id = self.next_label_id();
        let mut local_label = concat3("v_", context.function_name.as_str(), "_");
        push_str(&mut local_label, label_number(id).as_str());
        push_str(&mut local_label, "_");
        push_str(&mut local_label, declarator.name.as_str());
        self.label_types.insert(local_label.clone(), copy_type(&declarator.ty));
        self.emit_storage_for_declarator(&local_label, &declarator.ty, &declarator.initializer);
        context.bind(&declarator.name, &local_label);
        if let Some(initializer) = &declarator.initializer {
            if !matches!(initializer, Expression::ArrayInitializer { .. }) {
                self.emit_expression(context, initializer)?;
                self.push_instr(concat2("Store ", local_label.as_str()));
            }
        }
        Ok(())
    }

    /// The declarators of a local declaration, in order.
    #[verifier::loop_isolation(false)]
    fn emit_declaration(&mut self, context: &mut FunctionEmitContext, declaration: &crate::ast::Declaration) -> (r: Result<(), CompilerError>)
        ensures
            emitted_in(sp_locals(old(self)@, old(context)@, declaration.declarators@), r, final(self)@, final(context)@),
    {
        let ghost s0 = self@;
        let ghost c0 = context@;
        let ds = &declaration.declarators;
        let mut j: usize = 0;
        while j < ds.len()
            invariant
                0 <= j <= ds.len(),
                sp_locals(s0, c0, ds@.take(j as int)) matches Ok(p) && p.0 =~= self@ && p.1 =~= context@,
            decreases ds.len() - j,
        {
            let ghost u = ds@.take(j + 1);
            assert(u.drop_last() =~= ds@.take(j as int));
            assert(u.last() == ds@[j as int]);
            let ghost p = sp_locals(s0, c0, ds@.take(j as int))->Ok_0;
            assert(p.0 == self@);
            assert(p.1 == context@);
            let r1 = self.emit_local(context, &ds[j]);
            if r1.is_err() {
                proof {
                    lemma_locals_prefix_fail(s0, c0, ds@, j + 1);
                }
                return r1;
            }
            j += 1;
        }
        assert(ds@.take(ds.len() as int) =~= ds@);
        Ok(())
    }

    /// The items of a block, in order, in the current scope.
    #[verifier::loop_isolation(false)]
    #[verifier::rlimit(40)]
    #[verifier::spinoff_prover]
    fn emit_block(&mut self, context: &mut FunctionEmitContext, block: &crate::ast::Block) -> (r: Result<(), CompilerError>)
        ensures
            emitted_in(sp_items(old(self)@, old(context)@, block.items@), r, final(self)@, final(context)@),
        decreases block, 2nat,
    {
        let ghost s0 = self@;
        let ghost c0 = context@;
        let items = &block.items;
        let mut i: usize = 0;
        while i < items.len()
            invariant
                0 <= i <= items.len(),
                sp_items(s0, c0, items@.take(i as int)) matches Ok(p) && p.0 =~= self@ && p.1 =~= context@,
            decreases items.len() - i,
        {
            proof {
                assert(decreases_to!(*block => *items));
                assert(decreases_to!(*items => items@));
                assert(decreases_to!(items@ => items@[i as int]));
            }
            let ghost t = items@.take(i + 1);
            assert(t.drop_last() =~= items@.take(i as int));
            assert(t.last() == items@[i as int]);
            let ghost p = sp_items(s0, c0, items@.take(i as int))->Ok_0;
            assert(p.0 == self@);
            assert(p.1 == context@);
            match &items[i] {
                BlockItem::Declaration(declaration) => {
                    let r1 = self.emit_declaration(context, declaration);
                    if r1.is_err() {
                        assert(sp_item(p.0, p.1, items@[i as int]) is Err);
                        assert(sp_items(s0, c0, items@.take(i + 1)) is Err);
                        proof {
                            lemma_items_prefix_fail(s0, c0, items@, i + 1);
                        }
                        return r1;
                    }
                },
                BlockItem::Statement(statement) => {
                    let r = self.emit_statement(context, statement);
                    if r.is_err() {
                        proof {
                            lemma_items_prefix_fail(s0, c0, items@, i + 1);
                        }
                        return r;
                    }
                },
            }
            i += 1;
        }
        assert(items@.take(items.len() as int) =~= items@);
        Ok(())
    }

    fn emit_statement(&mut self, context: &mut FunctionEmitContext, statement: &Statement) -> (r: Result<(), CompilerError>)
        ensures
            emitted_in(sp_stmt(old(self)@, old(context)@, *statement), r, final(self)@, final(context)@),
        decreases statement, 1nat,
    {
        match statement {
            Statement::Block(block) => {
                context.push_scope();
                self.emit_block(context, block)?;
                context.pop_scope();
                Ok(())
            },
            Statement::If { .. } => self.emit_if(context, statement),
            Statement::Return(expression) => {
                if let Some(expression) = expression {
                    self.emit_expression(context, expression)?;
                } else {
                    self.push_instr_str("Clear");
                }
                let end = concat3("fn_", context.function_name.as_str(), "_end");
                self.push_instr(concat2("Jump ", end.as_str()));
                Ok(())
            },
            Statement::Expression(expression) => self.emit_opt_expression(context, expression),
            Statement::InlineAsm(instructions) => self.emit_inline_asm(context, instructions),
            Statement::While { .. } => self.emit_while(context, statement),
            Statement::For { .. } => self.emit_for(context, statement),
        }
    }

    fn emit_if(&mut self, context: &mut FunctionEmitContext, statement: &Statement) -> (r: Result<(), CompilerError>)
        requires
            *statement is If,
        ensures
            emitted_in(sp_if(old(self)@, old(context)@, *statement), r, final(self)@, final(context)@),
        decreases statement, 0nat,
    {
        match statement {
            Statement::If { condition, then_branch, else_branch } => {
                self.ensure_zero_const();
                let ghost s0 = self@;
                let branch_id = label_number(self.next_label_id());
                let else_label = concat3("if_", branch_id.as_str(), "_else");
                let end_label = concat3("if_", branch_id.as_str(), "_end");
                self.emit_expression(context, condition)?;
                let ghost s1 = self@;
                self.push_instr_str("Skipcond 0C00");
                self.push_instr(concat2("Jump ", else_label.as_str()));
                assert(self@ =~= with_instrs(s1, seq!["Skipcond 0C00"@, "Jump "@ + else_label@]));
                self.emit_statement(context, then_branch)?;
                let ghost s2 = self@;
                self.push_instr(concat2("Jump ", end_label.as_str()));
                self.push_instr(concat2(else_label.as_str(), ", Clear"));
                assert(self@ =~= with_instrs(s2, seq!["Jump "@ + end_label@, else_label@ + ", Clear"@]));
                if let Some(else_statement) = else_branch {
                    self.emit_statement(context, else_statement)?;
                }
                self.push_instr(concat2(end_label.as_str(), ", Add const_zero"));
                Ok(())
            },
            _ => Ok(()),
        }
    }

    fn emit_while(&mut self, context: &mut FunctionEmitContext, statement: &Statement) -> (r: Result<(), CompilerError>)
        requires
            *statement is While,
        ensures
            emitted_in(sp_while(old(self)@, old(context)@, *statement), r, final(self)@, final(context)@),
        decreases statement, 0nat,
    {
        match statement {
            Statement::While { condition, body } => {
                let ghost s0 = self@;
                let loop_id = label_number(self.next_label_id());
                let cond_label = concat2("while_cond_", loop_id.as_str());
                let end_label = concat2("while_end_", loop_id.as_str());
                self.push_instr(concat2("Jump ", cond_label.as_str()));
                self.push_instr(concat2(cond_label.as_str(), ", Clear"));
                assert(self@ =~= with_instrs(bump(s0), seq!["Jump "@ + cond_label@, cond_label@ + ", Clear"@]));
                self.emit_expression(context, condition)?;
                let ghost s1 = self@;
                self.push_instr_str("Skipcond 0C00");
                self.push_instr(concat2("Jump ", end_label.as_str()));
                assert(self@ =~= with_instrs(s1, seq!["Skipcond 0C00"@, "Jump "@ + end_label@]));
                self.emit_statement(context, body)?;
                let ghost s2 = self@;
                self.push_instr(concat2("Jump ", cond_label.as_str()));
                self.push_instr(concat2(end_label.as_str(), ", Clear"));
                assert(self@ =~= with_instrs(s2, seq!["Jump "@ + cond_label@, end_label@ + ", Clear"@]));
                Ok(())
            },
            _ => Ok(()),
        }
    }

    fn emit_for_test(&mut self, context: &FunctionEmitContext, condition: &Option<Expression>, end_label: &String) -> (r: Result<(), CompilerError>)
        ensures
            emitted(sp_for_test(old(self)@, context@, *condition, end_label@), r, final(self)@),
    {
        if let Some(cond) = condition {
            self.emit_expression(context, cond)?;
            let ghost s1 = self@;
            self.push_instr_str("Skipcond 0C00");
            self.push_instr(concat2("Jump ", end_label.as_str()));
            assert(self@ =~= with_instrs(s1, seq!["Skipcond 0C00"@, "Jump "@ + end_label@]));
        }
        Ok(())
    }

    #[verifier::rlimit(40)]
    #[verifier::spinoff_prover]
    fn emit_for(&mut self, context: &mut FunctionEmitContext, statement: &Statement) -> (r: Result<(), CompilerError>)
        requires
            *statement is For,
        ensures
            emitted_in(sp_for(old(self)@, old(context)@, *statement), r, final(self)@, final(context)@),
        decreases statement, 0nat,
    {
        match statement {
            Statement::For { init, condition, update, body } => {
                let loop_id = label_number(self.next_label_id());
                let cond_label = concat2("for_cond_", loop_id.as_str());
                let end_label = concat2("for_end_", loop_id.as_str());
                self.emit_opt_expression(context, init)?;
                let ghost s1 = self@;
                self.push_instr(concat2("Jump ", cond_label.as_str()));
                self.push_instr(concat2(cond_label.as_str(), ", Clear"));
                assert(self@ =~= with_instrs(s1, seq!["Jump "@ + cond_label@, cond_label@ + ", Clear"@]));
                self.emit_for_test(context, condition, &end_label)?;
                self.emit_statement(context, body)?;
                self.emit_opt_expression(context, update)?;
                let ghost s2 = self@;
                self.push_instr(concat2("Jump ", cond_label.as_str()));
                self.push_instr(concat2(end_label.as_str(), ", Clear"));
                assert(self@ =~= with_instrs(s2, seq!["Jump "@ + cond_label@, end_label@ + ", Clear"@]));
                Ok(())
            },
            _ => Ok(()),
        }
    }
}

} // verus!

verus! {

/// Number of parameter cells a function gets: none for `f(void)`.
pub fn normalized_parameter_count(function: &FunctionDeclaration) -> (r: usize)
    ensures
        r == parameter_count(function.params@),
{
    if function.params.len() == 1 && function.params[0].name.is_none()
        && matches!(function.params[0].ty, Type::Builtin(BuiltinType::Void)) {
        0
    } else {
        function.params.len()
    }
}

/// Once a prefix of the declarators fails, the start-up code of the whole list fails the same way.
pub proof fn lemma_global_inits_prefix_fail(s: EmitView, ds: Seq<Declarator>, k: int)
    requires
        0 <= k <= ds.len(),
        sp_global_inits(s, ds.take(k)) is Err,
    ensures
        sp_global_inits(s, ds) == sp_global_inits(s, ds.take(k)),
    decreases ds.len() - k,
{
    if k < ds.len() {
        assert(ds.take(k + 1).drop_last() =~= ds.take(k));
        lemma_global_inits_prefix_fail(s, ds, k + 1);
    } else {
        assert(ds.take(k) =~= ds);
    }
}

/// Once a prefix of the items fails, the start-up code of the whole unit fails the same way.
pub proof fn lemma_unit_inits_prefix_fail(s: EmitView, items: Seq<ExternalDeclaration>, k: int)
    requires
        0 <= k <= items.len(),
        sp_unit_inits(s, items.take(k)) is Err,
    ensures
        sp_unit_inits(s, items) == sp_unit_inits(s, items.take(k)),
    decreases items.len() - k,
{
    if k < items.len() {
        assert(items.take(k + 1).drop_last() =~= items.take(k));
        lemma_unit_inits_prefix_fail(s, items, k + 1);
    } else {
        assert(items.take(k) =~= items);
    }
}

pub proof fn lemma_functions_prefix_fail(s: EmitView, items: Seq<ExternalDeclaration>, k: int)
    requires
        0 <= k <= items.len(),
        sp_functions(s, items.take(k)) is Err,
    ensures
        sp_functions(s, items) == sp_functions(s, items.take(k)),
    decreases items.len() - k,
{
    if k < items.len() {
        assert(items.take(k + 1).drop_last() =~= items.take(k));
        lemma_functions_prefix_fail(s, items, k + 1);
    } else {
        assert(items.take(k) =~= items);
    }
}

impl MarieEmitter {
    /// Code and cells of one function.
    fn emit_function(&mut self, function: &FunctionDeclaration) -> (r: Result<(), CompilerError>)
        ensures
            emitted(sp_function(old(self)@, *function), r, final(self)@),
    {
        let ghost s0 = self@;
        let name = &function.name;
        let count = match self.functions.get(name) {
            Some(c) => *c,
            None => {
                return Err(CompilerError::semantic(concat3("missing function labels for '", name.as_str(), "'")));
            },
        };
        let entry = concat2("fn_", name.as_str());
        self.push_instr(concat2(entry.as_str(), ", HEX 000"));
        self.push_instr(concat3("fn_", name.as_str(), "_body, Clear"));
        let ghost s1 = self@;
        assert(s1 =~= with_instrs(s0, seq![fn_entry(name@) + ", HEX 000"@, "fn_"@ + name@ + "_body, Clear"@]));
        let params = &function.params;
        let mut scope: SymbolMap<String> = SymbolMap::new();
        let mut index: usize = 0;
        while index < params.len()
            invariant
                0 <= index <= params.len(),
                scope@ == parameter_scope(params@.take(index as int), count, name@),
                self@ == (EmitView { label_types: s1.label_types + parameter_types(params@.take(index as int), count, name@), ..s1 }),
            decreases params.len() - index,
        {
            let ghost t = params@.take(index + 1);
            assert(t.drop_last() =~= params@.take(index as int));
            assert(t.last() == params@[index as int]);
            let ghost before = self@.label_types;
            if let Some(param_name) = &params[index].name {
                if index < count {
                    let mut label = concat3("fn_", name.as_str(), "_param_");
                    push_str(&mut label, label_number(index).as_str());
                    assert(label@ =~= param_label(name@, index as int));
                    self.label_types.insert(label.clone(), copy_type(&params[index].ty));
                    scope.insert(param_name.clone(), label);
                }
            }
            assert(self@.label_types =~= s1.label_types + parameter_types(t, count, name@));
            index += 1;
        }
        assert(params@.take(params.len() as int) =~= params@);
        let mut context = FunctionEmitContext { function_name: name.clone(), scopes: vec![scope] };
        assert(context@.scopes =~= seq![parameter_scope(params@, count, name@)]);
        self.emit_block(&mut context, &function.body)?;
        let ghost s2 = self@;
        let end = concat3("fn_", name.as_str(), "_end");
        let ret = concat3("fn_", name.as_str(), "_ret");
        self.push_instr(concat3(end.as_str(), ", Store ", ret.as_str()));
        self.push_instr(concat2("JumpI ", entry.as_str()));
        self.push_data(concat2(ret.as_str(), ", DEC 0"));
        let ghost s3 = self@;
        let mut i: usize = 0;
        while i < count
            invariant
                0 <= i <= count,
                self@ =~= with_datas(s3, Seq::new(i as nat, |k: int| param_label(name@, k) + ", DEC 0"@)),
            decreases count - i,
        {
            let mut line = concat3("fn_", name.as_str(), "_param_");
            push_str(&mut line, label_number(i).as_str());
            push_str(&mut line, ", DEC 0");
            assert(line@ =~= param_label(name@, i as int) + ", DEC 0"@);
            self.push_data(line);
            assert(Seq::new((i + 1) as nat, |k: int| param_label(name@, k) + ", DEC 0"@) =~= Seq::new(
                i as nat, |k: int| param_label(name@, k) + ", DEC 0"@).push(param_label(name@, i as int) + ", DEC 0"@));
            i += 1;
        }
        Ok(())
    }
}

} // verus!

verus! {

fn mul_helper_code() -> (r: Vec<String>)
    ensures
        r@.map_values(|l: String| l@) == mul_helper_lines(),
{
    let r = vec![str_to_string("helper_mul, HEX 000"), str_to_string("helper_mul_body, Clear"),
        str_to_string("Store helper_mul_acc"), str_to_string("helper_mul_loop, Load helper_mul_rhs"),
        str_to_string("Skipcond 400"), str_to_string("Jump helper_mul_continue"), str_to_string("Jump helper_mul_done"),
        str_to_string("helper_mul_continue, Load helper_mul_acc"), str_to_string("Add helper_mul_lhs"),
        str_to_string("Store helper_mul_acc"), str_to_string("Load helper_mul_rhs"), str_to_string("Subt const_one"),
        str_to_string("Store helper_mul_rhs"), str_to_string("Jump helper_mul_loop"),
        str_to_string("helper_mul_done, Load helper_mul_acc"), str_to_string("Store helper_mul_ret"),
        str_to_string("JumpI helper_mul")];
    assert(r@.map_values(|l: String| l@) =~= mul_helper_lines());
    r
}

fn mod_helper_code() -> (r: Vec<String>)
    ensures
        r@.map_values(|l: String| l@) == mod_helper_lines(),
{
    let r = vec![str_to_string("helper_mod, HEX 000"), str_to_string("helper_mod_body, Load helper_mod_lhs"),
        str_to_string("Store helper_mod_work"), str_to_string("helper_mod_loop, Load helper_mod_work"),
        str_to_string("Subt helper_mod_rhs"), str_to_string("Skipcond 000"), str_to_string("Jump helper_mod_store"),
        str_to_string("Jump helper_mod_done"), str_to_string("helper_mod_store, Store helper_mod_work"),
        str_to_string("Jump helper_mod_loop"), str_to_string("helper_mod_done, Load helper_mod_work"),
        str_to_string("Store helper_mod_ret"), str_to_string("JumpI helper_mod")];
    assert(r@.map_values(|l: String| l@) =~= mod_helper_lines());
    r
}

fn div_helper_code() -> (r: Vec<String>)
    ensures
        r@.map_values(|l: String| l@) == div_helper_lines(),
{
    let r = vec![str_to_string("helper_div, HEX 000"), str_to_string("helper_div_body, Clear"),
        str_to_string("Store helper_div_quotient"), str_to_string("helper_div_loop, Load helper_div_rhs"),
        str_to_string("Skipcond 0C00"), str_to_string("Jump helper_div_done"), str_to_string("Load helper_div_dividend"),
        str_to_string("Subt helper_div_rhs"), str_to_string("Skipcond 000"), str_to_string("Jump helper_div_continue"),
        str_to_string("Jump helper_div_done"), str_to_string("helper_div_continue, Store helper_div_dividend"),
        str_to_string("Load helper_div_quotient"), str_to_string("Add const_one"),
        str_to_string("Store helper_div_quotient"), str_to_string("Jump helper_div_loop"),
        str_to_string("helper_div_done, Load helper_div_quotient"), str_to_string("Store helper_div_ret"),
        str_to_string("JumpI helper_div")];
    assert(r@.map_values(|l: String| l@) =~= div_helper_lines());
    r
}

fn cells(a: &str, b: &str, c: &str, d: &str) -> (r: Vec<String>)
    ensures
        r@.map_values(|l: String| l@) == seq![a@, b@, c@, d@],
{
    let r = vec![str_to_string(a), str_to_string(b), str_to_string(c), str_to_string(d)];
    assert(r@.map_values(|l: String| l@) =~= seq![a@, b@, c@, d@]);
    r
}

/// Lines joined with `\n` between them.
fn join_with_newlines(lines: &Lines) -> (r: String)
    ensures
        r@ == join_lines(lines@),
{
    let mut out = String::new();
    let mut i: usize = 0;
    while i < lines.items.len()
        invariant
            0 <= i <= lines.items.len(),
            lines@ == lines.items@.map_values(|l: String| l@),
            out@ == join_lines(lines@.take(i as int)),
        decreases lines.items.len() - i,
    {
        let ghost t = lines@.take(i + 1);
        assert(t.drop_last() =~= lines@.take(i as int));
        assert(t.last() == lines.items@[i as int]@);
        if i > 0 {
            push_char(&mut out, '\n');
        }
        let ghost before = out@;
        push_str(&mut out, lines.items[i].as_str());
        if i > 0 {
            assert(out@ =~= before + lines.items@[i as int]@);
        } else {
            assert(t.len() == 1 && t[0] == lines.items@[0]@);
            assert(out@ =~= lines.items@[0]@);
        }
        i += 1;
    }
    assert(lines@.take(lines.items.len() as int) =~= lines@);
    out
}

impl MarieEmitter {
    /// Records every global and function of the unit, in order.
    fn plan_symbols(&mut self, ast: &TranslationUnit)
        ensures
            final(self)@ =~= plan_symbols(old(self)@, ast.top_level_items@),
    {
        let ghost s0 = self@;
        let items = &ast.top_level_items;
        let mut i: usize = 0;
        while i < items.len()
            invariant
                0 <= i <= items.len(),
                self@ =~= plan_symbols(s0, items@.take(i as int)),
            decreases items.len() - i,
        {
            let ghost t = items@.take(i + 1);
            assert(t.drop_last() =~= items@.take(i as int));
            assert(t.last() == items@[i as int]);
            match &items[i] {
                ExternalDeclaration::GlobalDeclaration(declaration) => {
                    let ghost s1 = self@;
                    let ds = &declaration.declarators;
                    let is_typedef = matches!(declaration.storage_class, Some(StorageClass::Typedef));
                    let mut j: usize = 0;
                    while j < ds.len()
                        invariant
                            0 <= j <= ds.len(),
                            is_typedef == (declaration.storage_class == Some(StorageClass::Typedef)),
                            is_typedef ==> self@ =~= plan_typedefs(s1, ds@.take(j as int)),
                            !is_typedef ==> self@ =~= plan_globals(s1, ds@.take(j as int)),
                        decreases ds.len() - j,
                    {
                        let ghost u = ds@.take(j + 1);
                        assert(u.drop_last() =~= ds@.take(j as int));
                        assert(u.last() == ds@[j as int]);
                        let name = &ds[j].name;
                        self.record_definitions(&ds[j].ty);
                        if is_typedef {
                            self.typedefs.insert(name.clone(), copy_type(&ds[j].ty));
                        } else {
                            let label = concat2("g_", name.as_str());
                            self.globals.insert(name.clone(), label.clone());
                            self.label_types.insert(label, copy_type(&ds[j].ty));
                        }
                        j += 1;
                    }
                    assert(ds@.take(ds.len() as int) =~= ds@);
                },
                ExternalDeclaration::Function(function) => {
                    let count = normalized_parameter_count(function);
                    self.functions.insert(function.name.clone(), count);
                },
                ExternalDeclaration::TypeDeclaration(t) => self.record_definitions(t),
            }
            i += 1;
        }
        assert(items@.take(items.len() as int) =~= items@);
    }

    /// Every function of the unit, in order.
    #[verifier::loop_isolation(false)]
    fn emit_functions(&mut self, ast: &TranslationUnit) -> (r: Result<(), CompilerError>)
        ensures
            emitted(sp_functions(old(self)@, ast.top_level_items@), r, final(self)@),
    {
        let ghost s0 = self@;
        let items = &ast.top_level_items;
        let mut i: usize = 0;
        while i < items.len()
            invariant
                0 <= i <= items.len(),
                s0 == old(self)@,
                sp_functions(s0, items@.take(i as int)) matches Ok(x) && x =~= self@,
            decreases items.len() - i,
        {
            let ghost t = items@.take(i + 1);
            assert(t.drop_last() =~= items@.take(i as int));
            assert(t.last() == items@[i as int]);
            let ghost x = sp_functions(s0, items@.take(i as int))->Ok_0;
            assert(x == self@);
            if let ExternalDeclaration::Function(function) = &items[i] {
                let r = self.emit_function(function);
                if r.is_err() {
                    assert(sp_function(x, *function) is Err);
                    assert(sp_functions(s0, items@.take(i + 1)) is Err);
                    proof {
                        lemma_functions_prefix_fail(s0, items@, i + 1);
                    }
                    return r;
                }
            }
            i += 1;
        }
        assert(items@.take(items.len() as int) =~= items@);
        Ok(())
    }

    /// Start-up code of one global: its initializer computed and stored, when its value is
    /// not known before the program runs.
    fn emit_global_init(&mut self, declarator: &Declarator) -> (r: Result<(), CompilerError>)
        ensures
            emitted(sp_global_init(old(self)@, *declarator), r, final(self)@),
    {
        let found = match self.globals.get(&declarator.name) {
            Some(label) => Some(label.clone()),
            None => None,
        };
        if let Some(label) = found {
            if let Some(initializer) = &declarator.initializer {
                let is_list = matches!(initializer, Expression::ArrayInitializer { .. });
                let is_array = matches!(self.resolve_alias(&declarator.ty), Type::Array { .. });
                let runtime = !is_list && evaluate_constant(initializer).is_none() && !is_array
                    && self.struct_of(&declarator.ty).is_none();
                assert(runtime == runtime_initializer(self@, declarator.ty@, declarator.initializer));
                if runtime {
                    let context = FunctionEmitContext { function_name: str_to_string("main"), scopes: Vec::new() };
                    assert(context@ =~= init_context());
                    self.emit_expression(&context, initializer)?;
                    self.push_instr(concat2("Store ", label.as_str()));
                }
            }
        }
        Ok(())
    }

    /// Start-up code of the globals of one declaration, in order.
    fn emit_global_inits(&mut self, ds: &Vec<Declarator>) -> (r: Result<(), CompilerError>)
        ensures
            emitted(sp_global_inits(old(self)@, ds@), r, final(self)@),
    {
        let ghost s0 = self@;
        let mut j: usize = 0;
        while j < ds.len()
            invariant
                0 <= j <= ds.len(),
                s0 == old(self)@,
                sp_global_inits(s0, ds@.take(j as int)) matches Ok(y) && y =~= self@,
            decreases ds.len() - j,
        {
            let ghost u = ds@.take(j + 1);
            assert(u.drop_last() =~= ds@.take(j as int));
            assert(u.last() == ds@[j as int]);
            let ghost y = sp_global_inits(s0, ds@.take(j as int))->Ok_0;
            assert(y == self@);
            let r = self.emit_global_init(&ds[j]);
            if r.is_err() {
                assert(sp_global_inits(s0, u) == sp_global_init(y, ds@[j as int]));
                proof {
                    lemma_global_inits_prefix_fail(s0, ds@, j + 1);
                }
                return r;
            }
            j += 1;
        }
        assert(ds@.take(ds.len() as int) =~= ds@);
        Ok(())
    }

    /// Start-up code of every global of the unit, in order.
    fn emit_unit_inits(&mut self, ast: &TranslationUnit) -> (r: Result<(), CompilerError>)
        ensures
            emitted(sp_unit_inits(old(self)@, ast.top_level_items@), r, final(self)@),
    {
        let ghost s0 = self@;
        let items = &ast.top_level_items;
        let mut i: usize = 0;
        while i < items.len()
            invariant
                0 <= i <= items.len(),
                s0 == old(self)@,
                items@ == ast.top_level_items@,
                sp_unit_inits(s0, items@.take(i as int)) matches Ok(x) && x =~= self@,
            decreases items.len() - i,
        {
            let ghost t = items@.take(i + 1);
            assert(t.drop_last() =~= items@.take(i as int));
            assert(t.last() == items@[i as int]);
            let ghost x = sp_unit_inits(s0, items@.take(i as int))->Ok_0;
            assert(x == self@);
            if let ExternalDeclaration::GlobalDeclaration(declaration) = &items[i] {
                let r = self.emit_global_inits(&declaration.declarators);
                if r.is_err() {
                    assert(sp_global_inits(x, declaration.declarators@) is Err);
                    assert(sp_unit_inits(s0, t) == sp_global_inits(x, declaration.declarators@));
                    proof {
                        lemma_unit_inits_prefix_fail(s0, items@, i + 1);
                    }
                    return r;
                }
            }
            i += 1;
        }
        assert(items@.take(items.len() as int) =~= items@);
        Ok(())
    }

    /// Cells of every global of the unit, in order.
    fn emit_globals_storage(&mut self, ast: &TranslationUnit)
        ensures
            final(self)@ =~= globals_storage(old(self)@, ast.top_level_items@),
    {
        let ghost s0 = self@;
        let items = &ast.top_level_items;
        let mut i: usize = 0;
        while i < items.len()
            invariant
                0 <= i <= items.len(),
                self@ =~= globals_storage(s0, items@.take(i as int)),
            decreases items.len() - i,
        {
            let ghost t = items@.take(i + 1);
            assert(t.drop_last() =~= items@.take(i as int));
            assert(t.last() == items@[i as int]);
            if let ExternalDeclaration::GlobalDeclaration(declaration) = &items[i] {
                let ghost s1 = self@;
                let ds = &declaration.declarators;
                let mut j: usize = 0;
                while j < ds.len()
                    invariant
                        0 <= j <= ds.len(),
                        self@ =~= global_storage(s1, ds@.take(j as int)),
                    decreases ds.len() - j,
                {
                    let ghost u = ds@.take(j + 1);
                    assert(u.drop_last() =~= ds@.take(j as int));
                    assert(u.last() == ds@[j as int]);
                    let declarator = &ds[j];
                    let found = match self.globals.get(&declarator.name) {
                        Some(label) => Some(label.clone()),
                        None => None,
                    };
                    if let Some(label) = found {
                        self.emit_storage_for_declarator(&label, &declarator.ty, &declarator.initializer);
                    }
                    j += 1;
                }
                assert(ds@.take(ds.len() as int) =~= ds@);
            }
            i += 1;
        }
        assert(items@.take(items.len() as int) =~= items@);
    }

    /// Emits a whole unit: plans its symbols, the entry code, every function, then the
    /// cells of its globals.
    pub fn emit_translation_unit(&mut self, ast: &TranslationUnit) -> (r: Result<(), CompilerError>)
        ensures
            emitted(sp_unit(old(self)@, ast.top_level_items@), r, final(self)@),
    {
        self.plan_symbols(ast);
        let ghost s1 = self@;
        self.push_instr_str("_start, Clear");
        assert(self@ =~= with_instrs(s1, start_lines()));
        self.emit_unit_inits(ast)?;
        let ghost s2 = self@;
        self.push_instr_str("JnS fn_main");
        self.push_instr_str("Load fn_main_ret");
        self.push_instr_str("Output");
        self.push_instr_str("Halt");
        assert(self@ =~= with_instrs(s2, entry_call_lines()));
        self.emit_functions(ast)?;
        self.emit_globals_storage(ast);
        Ok(())
    }

    /// Adds a helper routine unless the code already has one with that entry label.
    fn add_helper(&mut self, entry: &str, code: Vec<String>, cell: &str, cell_lines: Vec<String>)
        ensures
            final(self)@ =~= add_helper(old(self)@, entry@, code@.map_values(|l: String| l@), cell@,
                cell_lines@.map_values(|l: String| l@)),
    {
        if self.instructions.any_starts_with(entry) {
            return;
        }
        self.instructions.extend(code);
        if !self.data.any_starts_with(cell) {
            self.data.extend(cell_lines);
        }
    }

    /// The helper routines that the code calls.
    fn emit_helpers(&mut self)
        ensures
            final(self)@ =~= with_helpers(old(self)@),
    {
        if self.needs_mul_helper {
            self.ensure_zero_const();
            self.ensure_one_const();
            self.add_helper("helper_mul,", mul_helper_code(), "helper_mul_lhs,",
                cells("helper_mul_lhs, DEC 0", "helper_mul_rhs, DEC 0", "helper_mul_acc, DEC 0", "helper_mul_ret, DEC 0"));
        }
        if self.needs_mod_helper {
            self.ensure_zero_const();
            self.add_helper("helper_mod,", mod_helper_code(), "helper_mod_lhs,",
                cells("helper_mod_lhs, DEC 0", "helper_mod_rhs, DEC 0", "helper_mod_work, DEC 0", "helper_mod_ret, DEC 0"));
        }
        if self.needs_div_helper {
            self.ensure_zero_const();
            self.ensure_one_const();
            self.add_helper("helper_div,", div_helper_code(), "helper_div_dividend,",
                cells("helper_div_dividend, DEC 0", "helper_div_rhs, DEC 0", "helper_div_quotient, DEC 0",
                "helper_div_ret, DEC 0"));
        }
    }

    /// The program text: a header, the code (helpers included), a marker, the data.
    pub fn finish(self) -> (r: String)
        ensures
            r@ == join_lines(program_lines(self@)),
    {
        let mut this = self;
        this.emit_helpers();
        let mut all = Lines::new();
        all.push_str("/ marie-c-compiler output");
        all.extend(this.instructions.items);
        all.push_str("/ data");
        all.extend(this.data.items);
        assert(all@ =~= program_lines(self@));
        join_with_newlines(&all)
    }
}

} // verus!
