//! What the emitted code computes: a small model of the MARIE machine (a 16-bit
//! accumulator, memory cells named by labels, conditional skips and jumps), and the
//! result of running the code that the emitter writes for comparison and logical
//! operators.
use vstd::prelude::*;
use crate::ast::BinaryOp;
use crate::codegen::model::{binop, binop_lines, helper_call_lines, incdec_lines, is_comparison_or_logic, mod_helper_lines, div_helper_lines, mul_helper_lines,
    negate_lines, not_lines, num, with_instrs, EmitFault, EmitView, ensure_one, ensure_zero, next_counter, bump};

verus! {

/// The conditions of `Skipcond`.
pub enum Cond {
    /// `Skipcond 000`: the accumulator is negative.
    Negative,
    /// `Skipcond 400`: the accumulator is zero.
    Zero,
    /// `Skipcond 800`: the accumulator is positive.
    Positive,
    /// `Skipcond 0C00`: the accumulator is not zero.
    NonZero,
}

/// The MARIE instructions that operator code uses.
pub enum Instr {
    /// `Load X`: the accumulator gets the value of cell `X`.
    Load(Seq<char>),
    /// `Store X`: cell `X` gets the value of the accumulator.
    Store(Seq<char>),
    /// `Add X`: the value of cell `X` is added to the accumulator.
    Add(Seq<char>),
    /// `Subt X`: the value of cell `X` is subtracted from the accumulator.
    Subt(Seq<char>),
    /// `Skipcond C`: the next instruction is skipped when the condition holds.
    Skipcond(Cond),
    /// `Jump L`: execution continues at the line labelled `L`.
    Jump(Seq<char>),
    /// `JnS X`: the address of the next line is stored at `X`, and execution continues
    /// after the line labelled `X`.
    JnS(Seq<char>),
    /// `JumpI X`: execution continues at the address held at `X`.
    JumpI(Seq<char>),
    /// `Clear`: the accumulator gets 0.
    Clear,
    /// `HEX v`: a word of data in the code (the entry word of a subroutine, which `JnS`
    /// fills with the return address); the model steps over it.
    Hex(Seq<char>),
}

/// A line of code: an optional label and an instruction.
pub struct Line {
    pub label: Option<Seq<char>>,
    pub instr: Instr,
}

/// The state of a run: the accumulator, the index of the next line, and the memory cells
/// by label.
pub struct MachineState {
    pub ac: int,
    pub pc: int,
    pub mem: Map<Seq<char>, int>,
}

/// The range of the 16-bit accumulator.
pub open spec fn in_word(v: int) -> bool {
    -0x8000 <= v <= 0x7fff
}

/// Two's-complement wrap-around into the accumulator's range.
pub open spec fn wrap16(v: int) -> int {
    ((v + 0x8000) % 0x10000) - 0x8000
}

pub open spec fn cond_holds(c: Cond, ac: int) -> bool {
    match c {
        Cond::Negative => ac < 0,
        Cond::Zero => ac == 0,
        Cond::Positive => ac > 0,
        Cond::NonZero => ac != 0,
    }
}

/// Index of the last line labelled `l` (-1 when there is none).
pub open spec fn label_pos(code: Seq<Line>, l: Seq<char>) -> int
    decreases code.len(),
{
    if code.len() == 0 {
        -1
    } else if code.last().label == Some(l) {
        code.len() - 1
    } else {
        label_pos(code.drop_last(), l)
    }
}

/// One step: executes the line at `pc`.
pub open spec fn step(code: Seq<Line>, st: MachineState) -> MachineState {
    match code[st.pc].instr {
        Instr::Load(x) => MachineState { ac: st.mem[x], pc: st.pc + 1, ..st },
        Instr::Store(x) => MachineState { pc: st.pc + 1, mem: st.mem.insert(x, st.ac), ..st },
        Instr::Add(x) => MachineState { ac: wrap16(st.ac + st.mem[x]), pc: st.pc + 1, ..st },
        Instr::Subt(x) => MachineState { ac: wrap16(st.ac - st.mem[x]), pc: st.pc + 1, ..st },
        Instr::Skipcond(c) => MachineState { pc: if cond_holds(c, st.ac) { st.pc + 2 } else { st.pc + 1 }, ..st },
        Instr::Jump(l) => MachineState { pc: label_pos(code, l), ..st },
        Instr::JnS(x) => MachineState { pc: label_pos(code, x) + 1, mem: st.mem.insert(x, st.pc + 1), ..st },
        Instr::JumpI(x) => MachineState { pc: st.mem[x], ..st },
        Instr::Clear => MachineState { ac: 0, pc: st.pc + 1, ..st },
        Instr::Hex(_) => MachineState { pc: st.pc + 1, ..st },
    }
}

/// Runs at most `fuel` steps, stopping once `pc` leaves the code.
pub open spec fn run(code: Seq<Line>, st: MachineState, fuel: nat) -> MachineState
    decreases fuel,
{
    if fuel == 0 || st.pc < 0 || st.pc >= code.len() {
        st
    } else {
        run(code, step(code, st), (fuel - 1) as nat)
    }
}

pub open spec fn cond_text(c: Cond) -> Seq<char> {
    match c {
        Cond::Negative => "000"@,
        Cond::Zero => "400"@,
        Cond::Positive => "800"@,
        Cond::NonZero => "0C00"@,
    }
}

pub open spec fn instr_text(i: Instr) -> Seq<char> {
    match i {
        Instr::Load(x) => "Load "@ + x,
        Instr::Store(x) => "Store "@ + x,
        Instr::Add(x) => "Add "@ + x,
        Instr::Subt(x) => "Subt "@ + x,
        Instr::Skipcond(c) => "Skipcond "@ + cond_text(c),
        Instr::Jump(l) => "Jump "@ + l,
        Instr::JnS(x) => "JnS "@ + x,
        Instr::JumpI(x) => "JumpI "@ + x,
        Instr::Clear => "Clear"@,
        Instr::Hex(v) => "HEX "@ + v,
    }
}

/// The assembly text of a line: `label, instruction` or the instruction alone.
pub open spec fn render(line: Line) -> Seq<char> {
    match line.label {
        Some(l) => l + ", "@ + instr_text(line.instr),
        None => instr_text(line.instr),
    }
}

pub open spec fn plain(i: Instr) -> Line {
    Line { label: None, instr: i }
}

pub open spec fn labelled(l: Seq<char>, i: Instr) -> Line {
    Line { label: Some(l), instr: i }
}

/// The value of a C comparison or logical operator on two ints.
pub open spec fn c_value(op: BinaryOp, x: int, y: int) -> int {
    let holds = match op {
        BinaryOp::Equal => x == y,
        BinaryOp::NotEqual => x != y,
        BinaryOp::Less => x < y,
        BinaryOp::LessEqual => x <= y,
        BinaryOp::Greater => x > y,
        BinaryOp::GreaterEqual => x >= y,
        BinaryOp::LogicalAnd => x != 0 && y != 0,
        _ => x != 0 || y != 0,
    };
    if holds {
        1
    } else {
        0
    }
}

/// The code of a comparison: the sign of the difference decides the skip; `jump_to_true`
/// says whether the jump that is not skipped leads to 1 (else to 0).
pub open spec fn compare_code(lt: Seq<char>, rt: Seq<char>, c: Cond, jump_to_true: bool, l1: Seq<char>, e: Seq<char>) -> Seq<Line> {
    let first = if jump_to_true { Instr::Load("const_zero"@) } else { Instr::Load("const_one"@) };
    let second = if jump_to_true { Instr::Load("const_one"@) } else { Instr::Load("const_zero"@) };
    seq![plain(Instr::Load(lt)), plain(Instr::Subt(rt)), plain(Instr::Skipcond(c)), plain(Instr::Jump(l1)),
        plain(first), plain(Instr::Jump(e)), labelled(l1, second), labelled(e, Instr::Add("const_zero"@))]
}

/// The code of `&&` (skip on non-zero, jump to 0) or `||` (skip on zero, jump to 1).
pub open spec fn logic_code(lt: Seq<char>, rt: Seq<char>, and: bool, l1: Seq<char>, e: Seq<char>) -> Seq<Line> {
    let c = if and { Cond::NonZero } else { Cond::Zero };
    let first = if and { Instr::Load("const_one"@) } else { Instr::Load("const_zero"@) };
    let second = if and { Instr::Load("const_zero"@) } else { Instr::Load("const_one"@) };
    seq![plain(Instr::Load(lt)), plain(Instr::Skipcond(c)), plain(Instr::Jump(l1)), plain(Instr::Load(rt)),
        plain(Instr::Skipcond(c)), plain(Instr::Jump(l1)), plain(first), plain(Instr::Jump(e)),
        labelled(l1, second), labelled(e, Instr::Add("const_zero"@))]
}

/// The code that the emitter writes for a comparison or logical operator, as instructions.
pub open spec fn binop_code(op: BinaryOp, lt: Seq<char>, rt: Seq<char>, a: usize, b: usize) -> Seq<Line> {
    match op {
        BinaryOp::Equal => compare_code(lt, rt, Cond::Zero, false, "cmp_eq_"@ + num(a) + "_false"@, "cmp_eq_"@ + num(b) + "_end"@),
        BinaryOp::NotEqual => compare_code(lt, rt, Cond::Zero, true, "cmp_ne_"@ + num(a) + "_true"@, "cmp_ne_"@ + num(b) + "_end"@),
        BinaryOp::Less => compare_code(lt, rt, Cond::Negative, false, "cmp_lt_"@ + num(a) + "_false"@, "cmp_lt_"@ + num(b) + "_end"@),
        BinaryOp::LessEqual => compare_code(lt, rt, Cond::Positive, true, "cmp_le_"@ + num(a) + "_true"@, "cmp_le_"@ + num(b) + "_end"@),
        BinaryOp::Greater => compare_code(lt, rt, Cond::Positive, false, "cmp_gt_"@ + num(a) + "_false"@, "cmp_gt_"@ + num(b) + "_end"@),
        BinaryOp::GreaterEqual => compare_code(lt, rt, Cond::Negative, true, "cmp_ge_"@ + num(a) + "_true"@, "cmp_ge_"@ + num(b) + "_end"@),
        BinaryOp::LogicalAnd => logic_code(lt, rt, true, "logic_and_"@ + num(a) + "_false"@, "logic_and_"@ + num(b) + "_end"@),
        _ => logic_code(lt, rt, false, "logic_or_"@ + num(a) + "_true"@, "logic_or_"@ + num(b) + "_end"@),
    }
}

/// The labels of a comparison's or logical operator's code are distinct.
proof fn lemma_labels_distinct(p: Seq<char>, a: usize, b: usize, suffix: Seq<char>)
    requires
        suffix == "_false"@ || suffix == "_true"@,
    ensures
        p + num(a) + suffix != p + num(b) + "_end"@,
{
    reveal_strlit("_false");
    reveal_strlit("_true");
    reveal_strlit("_end");
    let x = p + num(a) + suffix;
    let y = p + num(b) + "_end"@;
    assert(x.last() == 'e');
    assert(y.last() == 'd');
}

/// Within the accumulator's range, wrapping changes nothing.
proof fn lemma_wrap_in_word(v: int)
    requires
        in_word(v),
    ensures
        wrap16(v) == v,
{
    vstd::arithmetic::div_mod::lemma_small_mod((v + 0x8000) as nat, 0x10000);
}

proof fn lemma_compare_run(lt: Seq<char>, rt: Seq<char>, c: Cond, jt: bool, l1: Seq<char>, e: Seq<char>,
    mem: Map<Seq<char>, int>, x: int, y: int, ac: int)
    requires
        l1 != e,
        mem[lt] == x,
        mem[rt] == y,
        mem["const_zero"@] == 0,
        mem["const_one"@] == 1,
        in_word(x - y),
    ensures
        run(compare_code(lt, rt, c, jt, l1, e), MachineState { ac, pc: 0, mem }, 10)
            == (MachineState { ac: if cond_holds(c, x - y) != jt { 1 } else { 0 }, pc: 8, mem }),
{
    let code = compare_code(lt, rt, c, jt, l1, e);
    lemma_wrap_in_word(x - y);
    lemma_wrap_in_word(0);
    lemma_wrap_in_word(1);
    assert(code.drop_last().last().label == Some(l1));
    assert(label_pos(code, e) == 7);
    assert(label_pos(code.drop_last(), l1) == 6);
    assert(label_pos(code, l1) == 6);
    let s1 = step(code, MachineState { ac, pc: 0, mem });
    assert(s1 == MachineState { ac: x, pc: 1, mem });
    let s2 = step(code, s1);
    assert(s2 == MachineState { ac: x - y, pc: 2, mem });
    let s3 = step(code, s2);
    let v: int = if cond_holds(c, x - y) != jt { 1 } else { 0 };
    if cond_holds(c, x - y) {
        assert(s3.pc == 4);
        let s4 = step(code, s3);
        assert(s4.ac == (if jt { 0int } else { 1int }) && s4.pc == 5 && s4.mem == mem);
        let s5 = step(code, s4);
        assert(s5.pc == 7 && s5.ac == s4.ac && s5.mem == mem);
        let s6 = step(code, s5);
        assert(s6 == MachineState { ac: v, pc: 8, mem });
        reveal_with_fuel(run, 7);
    } else {
        assert(s3.pc == 3);
        let s4 = step(code, s3);
        assert(s4.pc == 6 && s4.mem == mem);
        let s5 = step(code, s4);
        assert(s5.ac == (if jt { 1int } else { 0int }) && s5.pc == 7 && s5.mem == mem);
        let s6 = step(code, s5);
        assert(s6 == MachineState { ac: v, pc: 8, mem });
        reveal_with_fuel(run, 7);
    }
}

proof fn lemma_logic_run(lt: Seq<char>, rt: Seq<char>, and: bool, l1: Seq<char>, e: Seq<char>,
    mem: Map<Seq<char>, int>, x: int, y: int, ac: int)
    requires
        l1 != e,
        mem[lt] == x,
        mem[rt] == y,
        mem["const_zero"@] == 0,
        mem["const_one"@] == 1,
    ensures
        run(logic_code(lt, rt, and, l1, e), MachineState { ac, pc: 0, mem }, 10) == (MachineState {
            ac: if (and && x != 0 && y != 0) || (!and && (x != 0 || y != 0)) { 1 } else { 0 },
            pc: 10,
            mem,
        }),
{
    let code = logic_code(lt, rt, and, l1, e);
    lemma_wrap_in_word(0);
    lemma_wrap_in_word(1);
    assert(code.drop_last().last().label == Some(l1));
    assert(label_pos(code, e) == 9);
    assert(label_pos(code.drop_last(), l1) == 8);
    assert(label_pos(code, l1) == 8);
    reveal_with_fuel(run, 9);
}

/// The emitter's text for a comparison or logical operator is the rendering of `binop_code`.
proof fn lemma_binop_text(op: BinaryOp, lt: Seq<char>, rt: Seq<char>, a: usize, b: usize)
    requires
        is_comparison_or_logic(op),
    ensures
        binop_lines(op, lt, rt, a, b) == binop_code(op, lt, rt, a, b).map_values(|l: Line| render(l)),
{
    reveal_strlit("Load ");
    reveal_strlit("Subt ");
    reveal_strlit("Add ");
    reveal_strlit("Jump ");
    reveal_strlit("Skipcond ");
    reveal_strlit("Skipcond 000");
    reveal_strlit("Skipcond 400");
    reveal_strlit("Skipcond 800");
    reveal_strlit("Skipcond 0C00");
    reveal_strlit("000");
    reveal_strlit("400");
    reveal_strlit("800");
    reveal_strlit("0C00");
    reveal_strlit(", ");
    reveal_strlit("const_zero");
    reveal_strlit("const_one");
    reveal_strlit("Load const_zero");
    reveal_strlit("Load const_one");
    reveal_strlit(", Load const_zero");
    reveal_strlit(", Load const_one");
    reveal_strlit(", Add const_zero");
    assert("Skipcond "@ + "000"@ =~= "Skipcond 000"@);
    assert("Skipcond "@ + "400"@ =~= "Skipcond 400"@);
    assert("Skipcond "@ + "800"@ =~= "Skipcond 800"@);
    assert("Skipcond "@ + "0C00"@ =~= "Skipcond 0C00"@);
    assert("Load "@ + "const_zero"@ =~= "Load const_zero"@);
    assert("Load "@ + "const_one"@ =~= "Load const_one"@);
    assert forall|l: Seq<char>| #![auto] l + ", "@ + ("Load "@ + "const_zero"@) =~= l + ", Load const_zero"@ by {}
    assert forall|l: Seq<char>| #![auto] l + ", "@ + ("Load "@ + "const_one"@) =~= l + ", Load const_one"@ by {}
    assert forall|l: Seq<char>| #![auto] l + ", "@ + ("Add "@ + "const_zero"@) =~= l + ", Add const_zero"@ by {}
    let text = binop_lines(op, lt, rt, a, b);
    let code = binop_code(op, lt, rt, a, b).map_values(|l: Line| render(l));
    assert(text.len() == code.len());
    assert forall|i: int| 0 <= i < text.len() implies text[i] == code[i] by {
        match op {
            BinaryOp::Equal => {},
            BinaryOp::NotEqual => {},
            BinaryOp::Less => {},
            BinaryOp::LessEqual => {},
            BinaryOp::Greater => {},
            BinaryOp::GreaterEqual => {},
            BinaryOp::LogicalAnd => {},
            _ => {},
        }
    }
    assert(text =~= code);
}

/// What the code for a comparison or logical operator computes: run on the MARIE machine
/// with the left operand's value `x` in cell `lt`, the right one's `y` in cell `rt` and the
/// constant cells holding 0 and 1, the lines that emission writes for the operator (the
/// rendering of `binop_code`) stop right after their last line with the C value of the
/// operator, 1 or 0, in the accumulator, and memory unchanged. For a comparison the difference `x - y` must fit
/// the 16-bit accumulator, as the code compares by subtracting.
pub proof fn law_comparison_code_computes_c_value(op: BinaryOp, lt: Seq<char>, rt: Seq<char>, a: usize, b: usize,
    mem: Map<Seq<char>, int>, x: int, y: int, ac: int)
    requires
        is_comparison_or_logic(op),
        mem[lt] == x,
        mem[rt] == y,
        mem["const_zero"@] == 0,
        mem["const_one"@] == 1,
        op != BinaryOp::LogicalAnd && op != BinaryOp::LogicalOr ==> in_word(x - y),
    ensures
        binop_lines(op, lt, rt, a, b) == binop_code(op, lt, rt, a, b).map_values(|l: Line| render(l)),
        run(binop_code(op, lt, rt, a, b), MachineState { ac, pc: 0, mem }, 10)
            == (MachineState { ac: c_value(op, x, y), pc: binop_code(op, lt, rt, a, b).len() as int, mem }),
{
    lemma_binop_text(op, lt, rt, a, b);
    match op {
        BinaryOp::Equal => {
            lemma_labels_distinct("cmp_eq_"@, a, b, "_false"@);
            lemma_compare_run(lt, rt, Cond::Zero, false, "cmp_eq_"@ + num(a) + "_false"@, "cmp_eq_"@ + num(b) + "_end"@, mem, x, y, ac);
        },
        BinaryOp::NotEqual => {
            lemma_labels_distinct("cmp_ne_"@, a, b, "_true"@);
            lemma_compare_run(lt, rt, Cond::Zero, true, "cmp_ne_"@ + num(a) + "_true"@, "cmp_ne_"@ + num(b) + "_end"@, mem, x, y, ac);
        },
        BinaryOp::Less => {
            lemma_labels_distinct("cmp_lt_"@, a, b, "_false"@);
            lemma_compare_run(lt, rt, Cond::Negative, false, "cmp_lt_"@ + num(a) + "_false"@, "cmp_lt_"@ + num(b) + "_end"@, mem, x, y, ac);
        },
        BinaryOp::LessEqual => {
            lemma_labels_distinct("cmp_le_"@, a, b, "_true"@);
            lemma_compare_run(lt, rt, Cond::Positive, true, "cmp_le_"@ + num(a) + "_true"@, "cmp_le_"@ + num(b) + "_end"@, mem, x, y, ac);
        },
        BinaryOp::Greater => {
            lemma_labels_distinct("cmp_gt_"@, a, b, "_false"@);
            lemma_compare_run(lt, rt, Cond::Positive, false, "cmp_gt_"@ + num(a) + "_false"@, "cmp_gt_"@ + num(b) + "_end"@, mem, x, y, ac);
        },
        BinaryOp::GreaterEqual => {
            lemma_labels_distinct("cmp_ge_"@, a, b, "_true"@);
            lemma_compare_run(lt, rt, Cond::Negative, true, "cmp_ge_"@ + num(a) + "_true"@, "cmp_ge_"@ + num(b) + "_end"@, mem, x, y, ac);
        },
        BinaryOp::LogicalAnd => {
            lemma_labels_distinct("logic_and_"@, a, b, "_false"@);
            lemma_logic_run(lt, rt, true, "logic_and_"@ + num(a) + "_false"@, "logic_and_"@ + num(b) + "_end"@, mem, x, y, ac);
        },
        _ => {
            lemma_labels_distinct("logic_or_"@, a, b, "_true"@);
            lemma_logic_run(lt, rt, false, "logic_or_"@ + num(a) + "_true"@, "logic_or_"@ + num(b) + "_end"@, mem, x, y, ac);
        },
    }
}

/// The code of `++`/`--` on the variable cell `l` (the postfix form keeps the old value in
/// the cell `t`), as instructions.
pub open spec fn incdec_code(l: Seq<char>, t: Seq<char>, decrement: bool, prefix: bool) -> Seq<Line> {
    let change = if decrement { Instr::Subt("const_one"@) } else { Instr::Add("const_one"@) };
    if prefix {
        seq![plain(Instr::Load(l)), plain(change), plain(Instr::Store(l))]
    } else {
        seq![plain(Instr::Load(l)), plain(Instr::Store(t)), plain(change), plain(Instr::Store(l)), plain(Instr::Load(t))]
    }
}

/// What the code for `++`/`--` on a variable computes: run with the variable's value `x` in
/// its cell `l` and 1 in the constant cell, the lines that emission writes (the rendering of
/// `incdec_code`) leave `x + 1` (or `x - 1`) in the variable's cell and stop right after
/// their last line with the new value (prefix form) or the old one (postfix form, which also
/// keeps the old value in its temporary cell `t`) in the accumulator. The new value must fit
/// the 16-bit accumulator; the temporary cell is neither the variable's nor the constant's.
pub proof fn law_increment_code_updates_variable(l: Seq<char>, t: Seq<char>, decrement: bool, prefix: bool,
    mem: Map<Seq<char>, int>, x: int, ac: int)
    requires
        mem[l] == x,
        mem["const_one"@] == 1,
        !prefix ==> t != l && t != "const_one"@,
        in_word(if decrement { x - 1 } else { x + 1 }),
    ensures
        incdec_lines(l, t, decrement, prefix) == incdec_code(l, t, decrement, prefix).map_values(|line: Line| render(line)),
        ({
            let new = if decrement { x - 1 } else { x + 1 };
            let code = incdec_code(l, t, decrement, prefix);
            run(code, MachineState { ac, pc: 0, mem }, 5) == (MachineState {
                ac: if prefix { new } else { x },
                pc: code.len() as int,
                mem: if prefix { mem.insert(l, new) } else { mem.insert(t, x).insert(l, new) },
            })
        }),
{
    reveal_strlit("Load ");
    reveal_strlit("Store ");
    reveal_strlit("Add ");
    reveal_strlit("Subt ");
    reveal_strlit("const_one");
    reveal_strlit("Add const_one");
    reveal_strlit("Subt const_one");
    assert("Add "@ + "const_one"@ =~= "Add const_one"@);
    assert("Subt "@ + "const_one"@ =~= "Subt const_one"@);
    assert(incdec_lines(l, t, decrement, prefix) =~= incdec_code(l, t, decrement, prefix).map_values(|line: Line| render(line)));
    let new = if decrement { x - 1 } else { x + 1 };
    lemma_wrap_in_word(new);
    let code = incdec_code(l, t, decrement, prefix);
    let s0 = MachineState { ac, pc: 0, mem };
    let s1 = step(code, s0);
    assert(s1 == MachineState { ac: x, pc: 1, mem });
    if prefix {
        let s2 = step(code, s1);
        assert(s2 == MachineState { ac: new, pc: 2, mem });
        let s3 = step(code, s2);
        assert(s3 == MachineState { ac: new, pc: 3, mem: mem.insert(l, new) });
        reveal_with_fuel(run, 4);
    } else {
        let s2 = step(code, s1);
        assert(s2 == MachineState { ac: x, pc: 2, mem: mem.insert(t, x) });
        let s3 = step(code, s2);
        assert(s3 == MachineState { ac: new, pc: 3, mem: mem.insert(t, x) });
        let s4 = step(code, s3);
        assert(s4 == MachineState { ac: new, pc: 4, mem: mem.insert(t, x).insert(l, new) });
        let s5 = step(code, s4);
        assert(s5 == MachineState { ac: x, pc: 5, mem: mem.insert(t, x).insert(l, new) });
        reveal_with_fuel(run, 6);
    }
}

/// The code of `!` on the accumulator, as instructions.
pub open spec fn not_code(a: usize, b: usize) -> Seq<Line> {
    let t = "unary_not_"@ + num(a) + "_true"@;
    let e = "unary_not_"@ + num(b) + "_end"@;
    seq![plain(Instr::Skipcond(Cond::Zero)), plain(Instr::Jump(t)), plain(Instr::Load("const_one"@)),
        plain(Instr::Jump(e)), labelled(t, Instr::Load("const_zero"@)), labelled(e, Instr::Add("const_zero"@))]
}

/// The code of unary `-` on the accumulator, as instructions.
pub open spec fn negate_code(t: Seq<char>) -> Seq<Line> {
    seq![plain(Instr::Store(t)), plain(Instr::Load("const_zero"@)), plain(Instr::Subt(t))]
}

/// What the code for the unary operators `!` and `-` computes: started with the operand's
/// value `x` in the accumulator and the constant cells holding 0 and 1, the lines that
/// emission writes for `!x` stop right after their last line with 1 when `x` is 0 and 0
/// otherwise in the accumulator, memory unchanged; those for `-x` (whose scratch cell `t`
/// is not the constant cell) stop with `-x`, which must fit the 16-bit accumulator.
pub proof fn law_unary_code_computes_c_value(a: usize, b: usize, t: Seq<char>, mem: Map<Seq<char>, int>, x: int)
    requires
        mem["const_zero"@] == 0,
        mem["const_one"@] == 1,
    ensures
        not_lines(a, b) == not_code(a, b).map_values(|l: Line| render(l)),
        run(not_code(a, b), MachineState { ac: x, pc: 0, mem }, 6)
            == (MachineState { ac: if x == 0 { 1 } else { 0 }, pc: 6, mem }),
        negate_lines(t) == negate_code(t).map_values(|l: Line| render(l)),
        t != "const_zero"@ && in_word(-x) ==> run(negate_code(t), MachineState { ac: x, pc: 0, mem }, 3)
            == (MachineState { ac: -x, pc: 3, mem: mem.insert(t, x) }),
{
    reveal_strlit("Load ");
    reveal_strlit("Store ");
    reveal_strlit("Add ");
    reveal_strlit("Subt ");
    reveal_strlit("Jump ");
    reveal_strlit("Skipcond ");
    reveal_strlit("Skipcond 400");
    reveal_strlit("400");
    reveal_strlit(", ");
    reveal_strlit("const_zero");
    reveal_strlit("const_one");
    reveal_strlit("Load const_zero");
    reveal_strlit("Load const_one");
    reveal_strlit(", Load const_zero");
    reveal_strlit(", Add const_zero");
    assert("Skipcond "@ + "400"@ =~= "Skipcond 400"@);
    assert("Load "@ + "const_zero"@ =~= "Load const_zero"@);
    assert("Load "@ + "const_one"@ =~= "Load const_one"@);
    assert forall|l: Seq<char>| #![auto] l + ", "@ + ("Load "@ + "const_zero"@) =~= l + ", Load const_zero"@ by {}
    assert forall|l: Seq<char>| #![auto] l + ", "@ + ("Add "@ + "const_zero"@) =~= l + ", Add const_zero"@ by {}
    assert(not_lines(a, b) =~= not_code(a, b).map_values(|l: Line| render(l)));
    assert(negate_lines(t) =~= negate_code(t).map_values(|l: Line| render(l)));
    let t1 = "unary_not_"@ + num(a) + "_true"@;
    let e = "unary_not_"@ + num(b) + "_end"@;
    lemma_labels_distinct("unary_not_"@, a, b, "_true"@);
    lemma_wrap_in_word(0);
    lemma_wrap_in_word(1);
    let code = not_code(a, b);
    assert(code.drop_last().last().label == Some(t1));
    assert(label_pos(code, e) == 5);
    assert(label_pos(code.drop_last(), t1) == 4);
    assert(label_pos(code, t1) == 4);
    reveal_with_fuel(run, 6);
    if t != "const_zero"@ && in_word(-x) {
        lemma_wrap_in_word(-x);
        let n = negate_code(t);
        let s1 = step(n, MachineState { ac: x, pc: 0, mem });
        assert(s1 == MachineState { ac: x, pc: 1, mem: mem.insert(t, x) });
        let s2 = step(n, s1);
        assert(s2 == MachineState { ac: 0, pc: 2, mem: mem.insert(t, x) });
        let s3 = step(n, s2);
        assert(s3 == MachineState { ac: -x, pc: 3, mem: mem.insert(t, x) });
    }
}

/// The routine that computes `%` by repeated subtraction, as instructions.
pub open spec fn mod_helper_code() -> Seq<Line> {
    seq![
        labelled("helper_mod"@, Instr::Hex("000"@)),
        labelled("helper_mod_body"@, Instr::Load("helper_mod_lhs"@)),
        plain(Instr::Store("helper_mod_work"@)),
        labelled("helper_mod_loop"@, Instr::Load("helper_mod_work"@)),
        plain(Instr::Subt("helper_mod_rhs"@)),
        plain(Instr::Skipcond(Cond::Negative)),
        plain(Instr::Jump("helper_mod_store"@)),
        plain(Instr::Jump("helper_mod_done"@)),
        labelled("helper_mod_store"@, Instr::Store("helper_mod_work"@)),
        plain(Instr::Jump("helper_mod_loop"@)),
        labelled("helper_mod_done"@, Instr::Load("helper_mod_work"@)),
        plain(Instr::Store("helper_mod_ret"@)),
        plain(Instr::JumpI("helper_mod"@)),
    ]
}

/// A call of the `%` routine on the operands held in the cells `lt` (left) and `rt`
/// (right), ending with the result in the accumulator.
pub open spec fn mod_call_code(lt: Seq<char>, rt: Seq<char>) -> Seq<Line> {
    seq![plain(Instr::Load(lt)), plain(Instr::Store("helper_mod_lhs"@)), plain(Instr::Load(rt)),
        plain(Instr::Store("helper_mod_rhs"@)), plain(Instr::JnS("helper_mod"@)), plain(Instr::Load("helper_mod_ret"@))]
}

/// The routine followed by a call of it.
pub open spec fn mod_program(lt: Seq<char>, rt: Seq<char>) -> Seq<Line> {
    mod_helper_code() + mod_call_code(lt, rt)
}

/// The steps from the routine's loop label, with `w` left to reduce by `y`, to the end of
/// the call.
pub open spec fn mod_loop_steps(w: int, y: int) -> nat
    decreases w,
{
    if w < y || y <= 0 {
        8
    } else {
        6 + mod_loop_steps(w - y, y)
    }
}

proof fn lemma_mod_names()
    ensures
        "helper_mod"@ != "helper_mod_body"@,
        "helper_mod"@ != "helper_mod_loop"@,
        "helper_mod"@ != "helper_mod_store"@,
        "helper_mod"@ != "helper_mod_done"@,
        "helper_mod_body"@ != "helper_mod_loop"@,
        "helper_mod_body"@ != "helper_mod_store"@,
        "helper_mod_body"@ != "helper_mod_done"@,
        "helper_mod_loop"@ != "helper_mod_store"@,
        "helper_mod_loop"@ != "helper_mod_done"@,
        "helper_mod_store"@ != "helper_mod_done"@,
        "helper_mod"@ != "helper_mod_lhs"@,
        "helper_mod"@ != "helper_mod_rhs"@,
        "helper_mod"@ != "helper_mod_work"@,
        "helper_mod"@ != "helper_mod_ret"@,
        "helper_mod_lhs"@ != "helper_mod_rhs"@,
        "helper_mod_lhs"@ != "helper_mod_work"@,
        "helper_mod_rhs"@ != "helper_mod_work"@,
        "helper_mod_rhs"@ != "helper_mod_ret"@,
        "helper_mod_work"@ != "helper_mod_ret"@,
{
    reveal_strlit("helper_mod");
    reveal_strlit("helper_mod_body");
    reveal_strlit("helper_mod_loop");
    reveal_strlit("helper_mod_store");
    reveal_strlit("helper_mod_done");
    reveal_strlit("helper_mod_lhs");
    reveal_strlit("helper_mod_rhs");
    reveal_strlit("helper_mod_work");
    reveal_strlit("helper_mod_ret");
    assert("helper_mod"@.len() == 10);
    assert("helper_mod_body"@.len() == 15);
    assert("helper_mod_loop"@.len() == 15);
    assert("helper_mod_store"@.len() == 16);
    assert("helper_mod_done"@.len() == 15);
    assert("helper_mod_body"@[11] != "helper_mod_loop"@[11]);
    assert("helper_mod_body"@[11] != "helper_mod_done"@[11]);
    assert("helper_mod_loop"@[11] != "helper_mod_done"@[11]);
    assert("helper_mod_lhs"@[11] != "helper_mod_rhs"@[11]);
    assert("helper_mod_rhs"@[12] != "helper_mod_ret"@[12]);
}

proof fn lemma_mod_labels(lt: Seq<char>, rt: Seq<char>)
    ensures
        label_pos(mod_program(lt, rt), "helper_mod"@) == 0,
        label_pos(mod_program(lt, rt), "helper_mod_loop"@) == 3,
        label_pos(mod_program(lt, rt), "helper_mod_store"@) == 8,
        label_pos(mod_program(lt, rt), "helper_mod_done"@) == 10,
        mod_program(lt, rt).len() == 19,
{
    lemma_mod_names();
    let code = mod_program(lt, rt);
    assert forall|k: int| 13 <= k < 19 implies (#[trigger] code[k]).label is None by {}
    reveal_with_fuel(label_pos, 20);
    assert(label_pos(code, "helper_mod_done"@) == 10) by {
        lemma_label_pos_at(code, "helper_mod_done"@, 10);
    }
    assert(label_pos(code, "helper_mod_store"@) == 8) by {
        lemma_label_pos_at(code, "helper_mod_store"@, 8);
    }
    assert(label_pos(code, "helper_mod_loop"@) == 3) by {
        lemma_label_pos_at(code, "helper_mod_loop"@, 3);
    }
    assert(label_pos(code, "helper_mod"@) == 0) by {
        lemma_label_pos_at(code, "helper_mod"@, 0);
    }
}

/// The last line labelled `l` is line `k` when no later line carries that label.
proof fn lemma_label_pos_at(code: Seq<Line>, l: Seq<char>, k: int)
    requires
        0 <= k < code.len(),
        code[k].label == Some(l),
        forall|j: int| k < j < code.len() ==> code[j].label != Some(l),
    ensures
        label_pos(code, l) == k,
    decreases code.len(),
{
    if code.len() - 1 != k {
        assert(code.last().label != Some(l));
        lemma_label_pos_at(code.drop_last(), l, k);
    }
}

/// The routine's loop: from its loop label, with `w` left and `y` to subtract, the call
/// ends after the routine returns with `w % y` in the accumulator.
proof fn lemma_mod_loop(lt: Seq<char>, rt: Seq<char>, st: MachineState, w: int, y: int)
    requires
        st.pc == 3,
        st.mem["helper_mod_work"@] == w,
        st.mem["helper_mod_rhs"@] == y,
        st.mem["helper_mod"@] == 18,
        0 <= w <= 0x7fff,
        0 < y <= 0x7fff,
    ensures
        run(mod_program(lt, rt), st, mod_loop_steps(w, y)).pc == 19,
        run(mod_program(lt, rt), st, mod_loop_steps(w, y)).ac == w % y,
    decreases w,
{
    let code = mod_program(lt, rt);
    lemma_mod_names();
    lemma_mod_labels(lt, rt);
    lemma_wrap_in_word(w - y);
    let s1 = step(code, st);
    assert(s1.ac == w && s1.pc == 4 && s1.mem == st.mem);
    let s2 = step(code, s1);
    assert(s2.ac == w - y && s2.pc == 5 && s2.mem == st.mem);
    let s3 = step(code, s2);
    if w < y {
        assert(s3.pc == 7 && s3.ac == w - y && s3.mem == st.mem);
        let s4 = step(code, s3);
        assert(s4.pc == 10 && s4.mem == st.mem);
        let s5 = step(code, s4);
        assert(s5.pc == 11 && s5.ac == w && s5.mem == st.mem);
        let s6 = step(code, s5);
        let m6 = st.mem.insert("helper_mod_ret"@, w);
        assert(s6.pc == 12 && s6.ac == w && s6.mem == m6);
        let s7 = step(code, s6);
        assert(s7.pc == 18 && s7.ac == w && s7.mem == m6);
        let s8 = step(code, s7);
        assert(s8.pc == 19 && s8.ac == w);
        vstd::arithmetic::div_mod::lemma_small_mod(w as nat, y as nat);
        assert(mod_loop_steps(w, y) == 8);
        reveal_with_fuel(run, 9);
        assert(run(code, st, 8) == s8);
    } else {
        assert(s3.pc == 6 && s3.mem == st.mem);
        let s4 = step(code, s3);
        assert(s4.pc == 8 && s4.ac == w - y && s4.mem == st.mem);
        let s5 = step(code, s4);
        let m5 = st.mem.insert("helper_mod_work"@, w - y);
        assert(s5.pc == 9 && s5.mem == m5);
        let s6 = step(code, s5);
        assert(s6.pc == 3 && s6.mem == m5);
        lemma_mod_loop(lt, rt, s6, w - y, y);
        vstd::arithmetic::div_mod::lemma_mod_sub_multiples_vanish(w, y);
        assert(mod_loop_steps(w, y) == 6 + mod_loop_steps(w - y, y));
        lemma_run_split(code, st, 6, mod_loop_steps(w - y, y));
        reveal_with_fuel(run, 7);
        assert(run(code, st, 6) == s6);
    }
}

/// Running `a + b` steps is running `a` steps, then `b` more.
proof fn lemma_run_split(code: Seq<Line>, st: MachineState, a: nat, b: nat)
    ensures
        run(code, st, a + b) == run(code, run(code, st, a), b),
    decreases a,
{
    if a > 0 && !(st.pc < 0 || st.pc >= code.len()) {
        lemma_run_split(code, step(code, st), (a - 1) as nat, b);
        assert((a + b - 1) as nat == ((a - 1) as nat + b) as nat);
    } else if a > 0 {
        lemma_run_stopped(code, st, b);
        lemma_run_stopped(code, st, a + b);
        lemma_run_stopped(code, st, a);
    }
}

proof fn lemma_run_stopped(code: Seq<Line>, st: MachineState, f: nat)
    requires
        st.pc < 0 || st.pc >= code.len(),
    ensures
        run(code, st, f) == st,
{
}

/// The text of the `%` routine and of a call of it is the rendering of these instructions.
proof fn lemma_mod_text(lt: Seq<char>, rt: Seq<char>)
    ensures
        mod_helper_lines() == mod_helper_code().map_values(|l: Line| render(l)),
        helper_call_lines("helper_mod"@, "_lhs"@, lt, rt) == mod_call_code(lt, rt).map_values(|l: Line| render(l)),
{
    reveal_strlit("Load ");
    reveal_strlit("Store ");
    reveal_strlit("Subt ");
    reveal_strlit("Jump ");
    reveal_strlit("JumpI ");
    reveal_strlit("JnS ");
    reveal_strlit("HEX ");
    reveal_strlit("Skipcond ");
    reveal_strlit("000");
    reveal_strlit(", ");
    reveal_strlit("_lhs");
    reveal_strlit("_rhs");
    reveal_strlit("_ret");
    reveal_strlit("helper_mod");
    reveal_strlit("helper_mod_body");
    reveal_strlit("helper_mod_loop");
    reveal_strlit("helper_mod_store");
    reveal_strlit("helper_mod_done");
    reveal_strlit("helper_mod_lhs");
    reveal_strlit("helper_mod_rhs");
    reveal_strlit("helper_mod_work");
    reveal_strlit("helper_mod_ret");
    reveal_strlit("helper_mod, HEX 000");
    reveal_strlit("helper_mod_body, Load helper_mod_lhs");
    reveal_strlit("Store helper_mod_work");
    reveal_strlit("helper_mod_loop, Load helper_mod_work");
    reveal_strlit("Subt helper_mod_rhs");
    reveal_strlit("Skipcond 000");
    reveal_strlit("Jump helper_mod_store");
    reveal_strlit("Jump helper_mod_done");
    reveal_strlit("helper_mod_store, Store helper_mod_work");
    reveal_strlit("Jump helper_mod_loop");
    reveal_strlit("helper_mod_done, Load helper_mod_work");
    reveal_strlit("Store helper_mod_ret");
    reveal_strlit("JumpI helper_mod");
    let a = mod_helper_lines();
    let b = mod_helper_code().map_values(|l: Line| render(l));
    assert(a.len() == b.len());
    assert(a[0] =~= b[0]);
    assert(a[1] =~= b[1]);
    assert(a[2] =~= b[2]);
    assert(a[3] =~= b[3]);
    assert(a[4] =~= b[4]);
    assert(a[5] =~= b[5]);
    assert(a[6] =~= b[6]);
    assert(a[7] =~= b[7]);
    assert(a[8] =~= b[8]);
    assert(a[9] =~= b[9]);
    assert(a[10] =~= b[10]);
    assert(a[11] =~= b[11]);
    assert(a[12] =~= b[12]);
    assert(a =~= b);
    let c = helper_call_lines("helper_mod"@, "_lhs"@, lt, rt);
    let d = mod_call_code(lt, rt).map_values(|l: Line| render(l));
    assert(c[1] =~= d[1]);
    assert(c[3] =~= d[3]);
    assert(c[4] =~= d[4]);
    assert(c[5] =~= d[5]);
    assert(c =~= d);
}

/// What the code for `%` computes: emission of `x % y` (with the left operand in cell `lt`
/// and the right one in cell `rt`) appends a call of the `%` routine that passes `lt` as the
/// routine's left operand and `rt` as its right one, and asks for the routine. Run on the
/// MARIE machine after the routine, with `0 <= x` and `0 < y` (both within the 16-bit
/// word) and the right operand's cell not the routine's own left-operand cell, the call
/// ends right after its last line with `x % y` in the accumulator.
pub proof fn law_modulo_code_computes_remainder(s: EmitView, lt: Seq<char>, rt: Seq<char>,
    mem: Map<Seq<char>, int>, x: int, y: int, ac: int)
    requires
        mem[lt] == x,
        mem[rt] == y,
        0 <= x <= 0x7fff,
        0 < y <= 0x7fff,
        rt != "helper_mod_lhs"@,
    ensures
        binop(s, BinaryOp::Modulo, lt, rt) == Ok::<EmitView, EmitFault>(with_instrs(
            EmitView { needs_mod_helper: true, ..s },
            mod_call_code(lt, rt).map_values(|l: Line| render(l)),
        )),
        mod_helper_lines() == mod_helper_code().map_values(|l: Line| render(l)),
        run(mod_program(lt, rt), MachineState { ac, pc: 13, mem }, 7 + mod_loop_steps(x, y)).pc
            == mod_program(lt, rt).len(),
        run(mod_program(lt, rt), MachineState { ac, pc: 13, mem }, 7 + mod_loop_steps(x, y)).ac == x % y,
{
    lemma_mod_text(lt, rt);
    lemma_mod_names();
    lemma_mod_labels(lt, rt);
    let code = mod_program(lt, rt);
    let s0 = MachineState { ac, pc: 13, mem };
    let s1 = step(code, s0);
    assert(s1.ac == x && s1.pc == 14 && s1.mem == mem);
    let s2 = step(code, s1);
    let m2 = mem.insert("helper_mod_lhs"@, x);
    assert(s2.pc == 15 && s2.mem == m2);
    let s3 = step(code, s2);
    assert(s3.ac == y && s3.pc == 16 && s3.mem == m2);
    let s4 = step(code, s3);
    let m4 = m2.insert("helper_mod_rhs"@, y);
    assert(s4.pc == 17 && s4.mem == m4);
    let s5 = step(code, s4);
    let m5 = m4.insert("helper_mod"@, 18);
    assert(s5.pc == 1 && s5.mem == m5);
    let s6 = step(code, s5);
    assert(s6.pc == 2 && s6.ac == x && s6.mem == m5);
    let s7 = step(code, s6);
    let m7 = m5.insert("helper_mod_work"@, x);
    assert(s7.pc == 3 && s7.mem == m7);
    lemma_mod_loop(lt, rt, s7, x, y);
    lemma_run_split(code, s0, 7, mod_loop_steps(x, y));
    reveal_with_fuel(run, 8);
    assert(run(code, s0, 7) == s7);
}

/// The routine that computes `/` by repeated subtraction, as instructions.
pub open spec fn div_helper_code() -> Seq<Line> {
    seq![
        labelled("helper_div"@, Instr::Hex("000"@)),
        labelled("helper_div_body"@, Instr::Clear),
        plain(Instr::Store("helper_div_quotient"@)),
        labelled("helper_div_loop"@, Instr::Load("helper_div_rhs"@)),
        plain(Instr::Skipcond(Cond::NonZero)),
        plain(Instr::Jump("helper_div_done"@)),
        plain(Instr::Load("helper_div_dividend"@)),
        plain(Instr::Subt("helper_div_rhs"@)),
        plain(Instr::Skipcond(Cond::Negative)),
        plain(Instr::Jump("helper_div_continue"@)),
        plain(Instr::Jump("helper_div_done"@)),
        labelled("helper_div_continue"@, Instr::Store("helper_div_dividend"@)),
        plain(Instr::Load("helper_div_quotient"@)),
        plain(Instr::Add("const_one"@)),
        plain(Instr::Store("helper_div_quotient"@)),
        plain(Instr::Jump("helper_div_loop"@)),
        labelled("helper_div_done"@, Instr::Load("helper_div_quotient"@)),
        plain(Instr::Store("helper_div_ret"@)),
        plain(Instr::JumpI("helper_div"@)),
    ]
}

/// A call of the `/` routine on the operands held in the cells `lt` (dividend) and `rt`
/// (divisor), ending with the result in the accumulator.
pub open spec fn div_call_code(lt: Seq<char>, rt: Seq<char>) -> Seq<Line> {
    seq![plain(Instr::Load(lt)), plain(Instr::Store("helper_div_dividend"@)), plain(Instr::Load(rt)),
        plain(Instr::Store("helper_div_rhs"@)), plain(Instr::JnS("helper_div"@)), plain(Instr::Load("helper_div_ret"@))]
}

/// The routine followed by a call of it.
pub open spec fn div_program(lt: Seq<char>, rt: Seq<char>) -> Seq<Line> {
    div_helper_code() + div_call_code(lt, rt)
}

/// The steps from the routine's loop label, with `d` left to divide by `y`, to the end of
/// the call.
pub open spec fn div_loop_steps(d: int, y: int) -> nat
    decreases d,
{
    if d < y || y <= 0 {
        10
    } else {
        11 + div_loop_steps(d - y, y)
    }
}

proof fn lemma_div_names()
    ensures
        "helper_div"@ != "helper_div_body"@,
        "helper_div"@ != "helper_div_loop"@,
        "helper_div"@ != "helper_div_continue"@,
        "helper_div"@ != "helper_div_done"@,
        "helper_div_body"@ != "helper_div_loop"@,
        "helper_div_body"@ != "helper_div_continue"@,
        "helper_div_body"@ != "helper_div_done"@,
        "helper_div_loop"@ != "helper_div_continue"@,
        "helper_div_loop"@ != "helper_div_done"@,
        "helper_div_continue"@ != "helper_div_done"@,
        "helper_div"@ != "helper_div_dividend"@,
        "helper_div"@ != "helper_div_rhs"@,
        "helper_div"@ != "helper_div_quotient"@,
        "helper_div"@ != "helper_div_ret"@,
        "helper_div"@ != "const_one"@,
        "helper_div_dividend"@ != "helper_div_rhs"@,
        "helper_div_dividend"@ != "helper_div_quotient"@,
        "helper_div_dividend"@ != "const_one"@,
        "helper_div_rhs"@ != "helper_div_quotient"@,
        "helper_div_rhs"@ != "helper_div_ret"@,
        "helper_div_rhs"@ != "const_one"@,
        "helper_div_quotient"@ != "helper_div_ret"@,
        "helper_div_quotient"@ != "const_one"@,
        "helper_div_ret"@ != "const_one"@,
{
    reveal_strlit("helper_div");
    reveal_strlit("helper_div_body");
    reveal_strlit("helper_div_loop");
    reveal_strlit("helper_div_continue");
    reveal_strlit("helper_div_done");
    reveal_strlit("helper_div_dividend");
    reveal_strlit("helper_div_rhs");
    reveal_strlit("helper_div_quotient");
    reveal_strlit("helper_div_ret");
    reveal_strlit("const_one");
    assert("helper_div"@.len() == 10);
    assert("helper_div_body"@.len() == 15);
    assert("helper_div_loop"@.len() == 15);
    assert("helper_div_continue"@.len() == 19);
    assert("helper_div_done"@.len() == 15);
    assert("helper_div_dividend"@.len() == 19);
    assert("helper_div_rhs"@.len() == 14);
    assert("helper_div_quotient"@.len() == 19);
    assert("helper_div_ret"@.len() == 14);
    assert("const_one"@.len() == 9);
    assert("helper_div_body"@[11] != "helper_div_loop"@[11]);
    assert("helper_div_body"@[11] != "helper_div_done"@[11]);
    assert("helper_div_loop"@[11] != "helper_div_done"@[11]);
    assert("helper_div_dividend"@[11] != "helper_div_quotient"@[11]);
    assert("helper_div_rhs"@[12] != "helper_div_ret"@[12]);
}

proof fn lemma_div_labels(lt: Seq<char>, rt: Seq<char>)
    ensures
        label_pos(div_program(lt, rt), "helper_div"@) == 0,
        label_pos(div_program(lt, rt), "helper_div_loop"@) == 3,
        label_pos(div_program(lt, rt), "helper_div_continue"@) == 11,
        label_pos(div_program(lt, rt), "helper_div_done"@) == 16,
        div_program(lt, rt).len() == 25,
{
    lemma_div_names();
    let code = div_program(lt, rt);
    assert forall|k: int| 19 <= k < 25 implies (#[trigger] code[k]).label is None by {}
    lemma_label_pos_at(code, "helper_div_done"@, 16);
    lemma_label_pos_at(code, "helper_div_continue"@, 11);
    lemma_label_pos_at(code, "helper_div_loop"@, 3);
    lemma_label_pos_at(code, "helper_div"@, 0);
}

/// The routine's loop: from its loop label, with `d` left to divide by `y` and `q` counted
/// so far, the call ends after the routine returns with `q + d / y` in the accumulator.
proof fn lemma_div_loop(lt: Seq<char>, rt: Seq<char>, st: MachineState, d: int, q: int, y: int)
    requires
        st.pc == 3,
        st.mem["helper_div_dividend"@] == d,
        st.mem["helper_div_quotient"@] == q,
        st.mem["helper_div_rhs"@] == y,
        st.mem["helper_div"@] == 24,
        st.mem["const_one"@] == 1,
        0 <= d <= 0x7fff,
        0 < y <= 0x7fff,
        0 <= q,
        q + d / y <= 0x7fff,
    ensures
        run(div_program(lt, rt), st, div_loop_steps(d, y)).pc == 25,
        run(div_program(lt, rt), st, div_loop_steps(d, y)).ac == q + d / y,
    decreases d,
{
    let code = div_program(lt, rt);
    lemma_div_names();
    lemma_div_labels(lt, rt);
    lemma_wrap_in_word(d - y);
    let s1 = step(code, st);
    assert(s1.ac == y && s1.pc == 4 && s1.mem == st.mem);
    let s2 = step(code, s1);
    assert(s2.pc == 6 && s2.mem == st.mem);
    let s3 = step(code, s2);
    assert(s3.ac == d && s3.pc == 7 && s3.mem == st.mem);
    let s4 = step(code, s3);
    assert(s4.ac == d - y && s4.pc == 8 && s4.mem == st.mem);
    let s5 = step(code, s4);
    if d < y {
        vstd::arithmetic::div_mod::lemma_basic_div(d, y);
        assert(s5.pc == 10 && s5.mem == st.mem);
        let s6 = step(code, s5);
        assert(s6.pc == 16 && s6.mem == st.mem);
        let s7 = step(code, s6);
        assert(s7.pc == 17 && s7.ac == q && s7.mem == st.mem);
        let s8 = step(code, s7);
        let m8 = st.mem.insert("helper_div_ret"@, q);
        assert(s8.pc == 18 && s8.ac == q && s8.mem == m8);
        let s9 = step(code, s8);
        assert(s9.pc == 24 && s9.mem == m8);
        let s10 = step(code, s9);
        assert(s10.pc == 25 && s10.ac == q);
        assert(div_loop_steps(d, y) == 10);
        reveal_with_fuel(run, 11);
        assert(run(code, st, 10) == s10);
    } else {
        vstd::arithmetic::div_mod::lemma_div_plus_one(d - y, y);
        vstd::arithmetic::div_mod::lemma_div_pos_is_pos(d - y, y);
        assert(d / y == 1 + (d - y) / y);
        lemma_wrap_in_word(q + 1);
        assert(s5.pc == 9 && s5.mem == st.mem);
        let s6 = step(code, s5);
        assert(s6.pc == 11 && s6.ac == d - y && s6.mem == st.mem);
        let s7 = step(code, s6);
        let m7 = st.mem.insert("helper_div_dividend"@, d - y);
        assert(s7.pc == 12 && s7.mem == m7);
        let s8 = step(code, s7);
        assert(s8.pc == 13 && s8.ac == q && s8.mem == m7);
        let s9 = step(code, s8);
        assert(s9.pc == 14 && s9.ac == q + 1 && s9.mem == m7);
        let s10 = step(code, s9);
        let m10 = m7.insert("helper_div_quotient"@, q + 1);
        assert(s10.pc == 15 && s10.mem == m10);
        let s11 = step(code, s10);
        assert(s11.pc == 3 && s11.mem == m10);
        lemma_div_loop(lt, rt, s11, d - y, q + 1, y);
        assert(div_loop_steps(d, y) == 11 + div_loop_steps(d - y, y));
        lemma_run_split(code, st, 11, div_loop_steps(d - y, y));
        reveal_with_fuel(run, 12);
        assert(run(code, st, 11) == s11);
    }
}

/// The text of the `/` routine and of a call of it is the rendering of these instructions.
proof fn lemma_div_text(lt: Seq<char>, rt: Seq<char>)
    ensures
        div_helper_lines() == div_helper_code().map_values(|l: Line| render(l)),
        helper_call_lines("helper_div"@, "_dividend"@, lt, rt) == div_call_code(lt, rt).map_values(|l: Line| render(l)),
{
    reveal_strlit("Load ");
    reveal_strlit("Store ");
    reveal_strlit("Subt ");
    reveal_strlit("Add ");
    reveal_strlit("Clear");
    reveal_strlit("Jump ");
    reveal_strlit("JumpI ");
    reveal_strlit("JnS ");
    reveal_strlit("HEX ");
    reveal_strlit("Skipcond ");
    reveal_strlit("000");
    reveal_strlit("0C00");
    reveal_strlit(", ");
    reveal_strlit("_dividend");
    reveal_strlit("_rhs");
    reveal_strlit("_ret");
    reveal_strlit("const_one");
    reveal_strlit("helper_div");
    reveal_strlit("helper_div_body");
    reveal_strlit("helper_div_loop");
    reveal_strlit("helper_div_continue");
    reveal_strlit("helper_div_done");
    reveal_strlit("helper_div_dividend");
    reveal_strlit("helper_div_rhs");
    reveal_strlit("helper_div_quotient");
    reveal_strlit("helper_div_ret");
    reveal_strlit("helper_div, HEX 000");
    reveal_strlit("helper_div_body, Clear");
    reveal_strlit("Store helper_div_quotient");
    reveal_strlit("helper_div_loop, Load helper_div_rhs");
    reveal_strlit("Skipcond 0C00");
    reveal_strlit("Jump helper_div_done");
    reveal_strlit("Load helper_div_dividend");
    reveal_strlit("Subt helper_div_rhs");
    reveal_strlit("Skipcond 000");
    reveal_strlit("Jump helper_div_continue");
    reveal_strlit("helper_div_continue, Store helper_div_dividend");
    reveal_strlit("Load helper_div_quotient");
    reveal_strlit("Add const_one");
    reveal_strlit("Jump helper_div_loop");
    reveal_strlit("helper_div_done, Load helper_div_quotient");
    reveal_strlit("Store helper_div_ret");
    reveal_strlit("JumpI helper_div");
    let a = div_helper_lines();
    let b = div_helper_code().map_values(|l: Line| render(l));
    assert(a.len() == b.len());
    assert(a[0] =~= b[0]);
    assert(a[1] =~= b[1]);
    assert(a[2] =~= b[2]);
    assert(a[3] =~= b[3]);
    assert(a[4] =~= b[4]);
    assert(a[5] =~= b[5]);
    assert(a[6] =~= b[6]);
    assert(a[7] =~= b[7]);
    assert(a[8] =~= b[8]);
    assert(a[9] =~= b[9]);
    assert(a[10] =~= b[10]);
    assert(a[11] =~= b[11]);
    assert(a[12] =~= b[12]);
    assert(a[13] =~= b[13]);
    assert(a[14] =~= b[14]);
    assert(a[15] =~= b[15]);
    assert(a[16] =~= b[16]);
    assert(a[17] =~= b[17]);
    assert(a[18] =~= b[18]);
    assert(a =~= b);
    let c = helper_call_lines("helper_div"@, "_dividend"@, lt, rt);
    let e = div_call_code(lt, rt).map_values(|l: Line| render(l));
    assert(c[1] =~= e[1]);
    assert(c[3] =~= e[3]);
    assert(c[4] =~= e[4]);
    assert(c[5] =~= e[5]);
    assert(c =~= e);
}

/// What the code for `/` computes: emission of `x / y` (with the dividend in cell `lt` and
/// the divisor in cell `rt`) appends a call of the `/` routine that passes `lt` as the
/// routine's dividend and `rt` as its divisor, and asks for the routine. Run on the MARIE
/// machine after the routine, with `0 <= x` and `0 < y` (both within the 16-bit word), the
/// constant cell holding 1, and the divisor's cell not the routine's own dividend cell, the
/// call ends right after its last line with `x / y` in the accumulator.
pub proof fn law_division_code_computes_quotient(s: EmitView, lt: Seq<char>, rt: Seq<char>,
    mem: Map<Seq<char>, int>, x: int, y: int, ac: int)
    requires
        mem[lt] == x,
        mem[rt] == y,
        mem["const_one"@] == 1,
        0 <= x <= 0x7fff,
        0 < y <= 0x7fff,
        rt != "helper_div_dividend"@,
    ensures
        binop(s, BinaryOp::Divide, lt, rt) == Ok::<EmitView, EmitFault>(with_instrs(
            EmitView { needs_div_helper: true, ..s },
            div_call_code(lt, rt).map_values(|l: Line| render(l)),
        )),
        div_helper_lines() == div_helper_code().map_values(|l: Line| render(l)),
        run(div_program(lt, rt), MachineState { ac, pc: 19, mem }, 7 + div_loop_steps(x, y)).pc
            == div_program(lt, rt).len(),
        run(div_program(lt, rt), MachineState { ac, pc: 19, mem }, 7 + div_loop_steps(x, y)).ac == x / y,
{
    lemma_div_text(lt, rt);
    lemma_div_names();
    lemma_div_labels(lt, rt);
    vstd::arithmetic::div_mod::lemma_div_pos_is_pos(x, y);
    vstd::arithmetic::div_mod::lemma_div_is_ordered_by_denominator(x, 1, y);
    vstd::arithmetic::div_mod::lemma_div_basics(x);
    assert(x / y <= x);
    let code = div_program(lt, rt);
    let s0 = MachineState { ac, pc: 19, mem };
    let s1 = step(code, s0);
    assert(s1.ac == x && s1.pc == 20 && s1.mem == mem);
    let s2 = step(code, s1);
    let m2 = mem.insert("helper_div_dividend"@, x);
    assert(s2.pc == 21 && s2.mem == m2);
    let s3 = step(code, s2);
    assert(s3.ac == y && s3.pc == 22 && s3.mem == m2);
    let s4 = step(code, s3);
    let m4 = m2.insert("helper_div_rhs"@, y);
    assert(s4.pc == 23 && s4.mem == m4);
    let s5 = step(code, s4);
    let m5 = m4.insert("helper_div"@, 24);
    assert(s5.pc == 1 && s5.mem == m5);
    let s6 = step(code, s5);
    assert(s6.pc == 2 && s6.ac == 0 && s6.mem == m5);
    let s7 = step(code, s6);
    let m7 = m5.insert("helper_div_quotient"@, 0);
    assert(s7.pc == 3 && s7.mem == m7);
    lemma_div_loop(lt, rt, s7, x, 0, y);
    lemma_run_split(code, s0, 7, div_loop_steps(x, y));
    reveal_with_fuel(run, 8);
    assert(run(code, s0, 7) == s7);
}

/// What the code for `+` and `-` computes: emission of `x + y` (or `x - y`), with the left
/// operand already in the accumulator and the right one in cell `rt`, appends the one
/// instruction that adds (subtracts) the right operand's cell; run on the MARIE machine it
/// leaves `x + y` (`x - y`), wrapped to the 16-bit word, in the accumulator.
pub proof fn law_additive_code_computes_sum(s: EmitView, lt: Seq<char>, rt: Seq<char>, mem: Map<Seq<char>, int>,
    x: int, y: int)
    requires
        mem[rt] == y,
    ensures
        binop(s, BinaryOp::Add, lt, rt) == Ok::<EmitView, EmitFault>(
            with_instrs(s, seq![plain(Instr::Add(rt))].map_values(|l: Line| render(l)))),
        binop(s, BinaryOp::Subtract, lt, rt) == Ok::<EmitView, EmitFault>(
            with_instrs(s, seq![plain(Instr::Subt(rt))].map_values(|l: Line| render(l)))),
        run(seq![plain(Instr::Add(rt))], MachineState { ac: x, pc: 0, mem }, 1)
            == (MachineState { ac: wrap16(x + y), pc: 1, mem }),
        run(seq![plain(Instr::Subt(rt))], MachineState { ac: x, pc: 0, mem }, 1)
            == (MachineState { ac: wrap16(x - y), pc: 1, mem }),
{
    assert(seq![plain(Instr::Add(rt))].map_values(|l: Line| render(l)) =~= seq!["Add "@ + rt]);
    assert(seq![plain(Instr::Subt(rt))].map_values(|l: Line| render(l)) =~= seq!["Subt "@ + rt]);
    assert(s.instructions.push("Add "@ + rt) =~= s.instructions + seq!["Add "@ + rt]);
    assert(s.instructions.push("Subt "@ + rt) =~= s.instructions + seq!["Subt "@ + rt]);
    reveal_with_fuel(run, 2);
}

/// Emission of a comparison or logical operator on the operands in cells `lt` (left) and
/// `rt` (right) appends exactly the code of `binop_code` for those cells in that order
/// (with two fresh label numbers), so what that code computes
/// (`law_comparison_code_computes_c_value`) is what the emitted program computes.
pub proof fn law_comparison_emission_keeps_operand_order(s: EmitView, op: BinaryOp, lt: Seq<char>, rt: Seq<char>)
    requires
        is_comparison_or_logic(op),
    ensures
        ({
            let s1 = ensure_one(ensure_zero(s));
            let a = s1.label_counter;
            let b = next_counter(a);
            binop(s, op, lt, rt) == Ok::<EmitView, EmitFault>(
                with_instrs(bump(bump(s1)), binop_code(op, lt, rt, a, b).map_values(|l: Line| render(l))))
        }),
{
    let s1 = ensure_one(ensure_zero(s));
    let a = s1.label_counter;
    let b = next_counter(a);
    lemma_binop_text(op, lt, rt, a, b);
}

/// The routine that computes `*` by repeated addition, as instructions.
pub open spec fn mul_helper_code() -> Seq<Line> {
    seq![
        labelled("helper_mul"@, Instr::Hex("000"@)),
        labelled("helper_mul_body"@, Instr::Clear),
        plain(Instr::Store("helper_mul_acc"@)),
        labelled("helper_mul_loop"@, Instr::Load("helper_mul_rhs"@)),
        plain(Instr::Skipcond(Cond::Zero)),
        plain(Instr::Jump("helper_mul_continue"@)),
        plain(Instr::Jump("helper_mul_done"@)),
        labelled("helper_mul_continue"@, Instr::Load("helper_mul_acc"@)),
        plain(Instr::Add("helper_mul_lhs"@)),
        plain(Instr::Store("helper_mul_acc"@)),
        plain(Instr::Load("helper_mul_rhs"@)),
        plain(Instr::Subt("const_one"@)),
        plain(Instr::Store("helper_mul_rhs"@)),
        plain(Instr::Jump("helper_mul_loop"@)),
        labelled("helper_mul_done"@, Instr::Load("helper_mul_acc"@)),
        plain(Instr::Store("helper_mul_ret"@)),
        plain(Instr::JumpI("helper_mul"@)),
    ]
}

/// A call of the `*` routine on the operands held in the cells `lt` (left) and `rt`
/// (right), ending with the result in the accumulator.
pub open spec fn mul_call_code(lt: Seq<char>, rt: Seq<char>) -> Seq<Line> {
    seq![plain(Instr::Load(lt)), plain(Instr::Store("helper_mul_lhs"@)), plain(Instr::Load(rt)),
        plain(Instr::Store("helper_mul_rhs"@)), plain(Instr::JnS("helper_mul"@)), plain(Instr::Load("helper_mul_ret"@))]
}

/// The routine followed by a call of it.
pub open spec fn mul_program(lt: Seq<char>, rt: Seq<char>) -> Seq<Line> {
    mul_helper_code() + mul_call_code(lt, rt)
}

/// The steps from the routine's loop label, with `n` additions left, to the end of the call.
pub open spec fn mul_loop_steps(n: int) -> nat
    decreases n,
{
    if n <= 0 {
        7
    } else {
        10 + mul_loop_steps(n - 1)
    }
}

proof fn lemma_mul_names()
    ensures
        "helper_mul"@ != "helper_mul_body"@,
        "helper_mul"@ != "helper_mul_loop"@,
        "helper_mul"@ != "helper_mul_continue"@,
        "helper_mul"@ != "helper_mul_done"@,
        "helper_mul_body"@ != "helper_mul_loop"@,
        "helper_mul_body"@ != "helper_mul_continue"@,
        "helper_mul_body"@ != "helper_mul_done"@,
        "helper_mul_loop"@ != "helper_mul_continue"@,
        "helper_mul_loop"@ != "helper_mul_done"@,
        "helper_mul_continue"@ != "helper_mul_done"@,
        "helper_mul"@ != "helper_mul_lhs"@,
        "helper_mul"@ != "helper_mul_rhs"@,
        "helper_mul"@ != "helper_mul_acc"@,
        "helper_mul"@ != "helper_mul_ret"@,
        "helper_mul"@ != "const_one"@,
        "helper_mul_lhs"@ != "helper_mul_rhs"@,
        "helper_mul_lhs"@ != "helper_mul_acc"@,
        "helper_mul_lhs"@ != "helper_mul_ret"@,
        "helper_mul_lhs"@ != "const_one"@,
        "helper_mul_rhs"@ != "helper_mul_acc"@,
        "helper_mul_rhs"@ != "helper_mul_ret"@,
        "helper_mul_rhs"@ != "const_one"@,
        "helper_mul_acc"@ != "helper_mul_ret"@,
        "helper_mul_acc"@ != "const_one"@,
        "helper_mul_ret"@ != "const_one"@,
{
    reveal_strlit("helper_mul");
    reveal_strlit("helper_mul_body");
    reveal_strlit("helper_mul_loop");
    reveal_strlit("helper_mul_continue");
    reveal_strlit("helper_mul_done");
    reveal_strlit("helper_mul_lhs");
    reveal_strlit("helper_mul_rhs");
    reveal_strlit("helper_mul_acc");
    reveal_strlit("helper_mul_ret");
    reveal_strlit("const_one");
    assert("helper_mul"@.len() == 10);
    assert("helper_mul_body"@.len() == 15);
    assert("helper_mul_loop"@.len() == 15);
    assert("helper_mul_continue"@.len() == 19);
    assert("helper_mul_done"@.len() == 15);
    assert("helper_mul_lhs"@.len() == 14);
    assert("helper_mul_rhs"@.len() == 14);
    assert("helper_mul_acc"@.len() == 14);
    assert("helper_mul_ret"@.len() == 14);
    assert("const_one"@.len() == 9);
    assert("helper_mul_body"@[11] != "helper_mul_loop"@[11]);
    assert("helper_mul_body"@[11] != "helper_mul_done"@[11]);
    assert("helper_mul_loop"@[11] != "helper_mul_done"@[11]);
    assert("helper_mul_lhs"@[11] != "helper_mul_rhs"@[11]);
    assert("helper_mul_lhs"@[11] != "helper_mul_acc"@[11]);
    assert("helper_mul_lhs"@[11] != "helper_mul_ret"@[11]);
    assert("helper_mul_rhs"@[11] != "helper_mul_acc"@[11]);
    assert("helper_mul_acc"@[11] != "helper_mul_ret"@[11]);
    assert("helper_mul_rhs"@[12] != "helper_mul_ret"@[12]);
}

proof fn lemma_mul_labels(lt: Seq<char>, rt: Seq<char>)
    ensures
        label_pos(mul_program(lt, rt), "helper_mul"@) == 0,
        label_pos(mul_program(lt, rt), "helper_mul_loop"@) == 3,
        label_pos(mul_program(lt, rt), "helper_mul_continue"@) == 7,
        label_pos(mul_program(lt, rt), "helper_mul_done"@) == 14,
        mul_program(lt, rt).len() == 23,
{
    lemma_mul_names();
    let code = mul_program(lt, rt);
    assert forall|k: int| 17 <= k < 23 implies (#[trigger] code[k]).label is None by {}
    lemma_label_pos_at(code, "helper_mul_done"@, 14);
    lemma_label_pos_at(code, "helper_mul_continue"@, 7);
    lemma_label_pos_at(code, "helper_mul_loop"@, 3);
    lemma_label_pos_at(code, "helper_mul"@, 0);
}

/// The routine's loop: from its loop label, with `n` additions of `x` left and `a` summed
/// so far, the call ends after the routine returns with `a + x * n` in the accumulator.
proof fn lemma_mul_loop(lt: Seq<char>, rt: Seq<char>, st: MachineState, a: int, x: int, n: int)
    requires
        st.pc == 3,
        st.mem["helper_mul_acc"@] == a,
        st.mem["helper_mul_lhs"@] == x,
        st.mem["helper_mul_rhs"@] == n,
        st.mem["helper_mul"@] == 22,
        st.mem["const_one"@] == 1,
        0 <= a,
        0 <= x,
        0 <= n <= 0x7fff,
        a + x * n <= 0x7fff,
    ensures
        run(mul_program(lt, rt), st, mul_loop_steps(n)).pc == 23,
        run(mul_program(lt, rt), st, mul_loop_steps(n)).ac == a + x * n,
    decreases n,
{
    let code = mul_program(lt, rt);
    lemma_mul_names();
    lemma_mul_labels(lt, rt);
    let s1 = step(code, st);
    assert(s1.ac == n && s1.pc == 4 && s1.mem == st.mem);
    let s2 = step(code, s1);
    if n == 0 {
        assert(s2.pc == 6 && s2.mem == st.mem);
        let s3 = step(code, s2);
        assert(s3.pc == 14 && s3.mem == st.mem);
        let s4 = step(code, s3);
        assert(s4.pc == 15 && s4.ac == a && s4.mem == st.mem);
        let s5 = step(code, s4);
        let m5 = st.mem.insert("helper_mul_ret"@, a);
        assert(s5.pc == 16 && s5.mem == m5);
        let s6 = step(code, s5);
        assert(s6.pc == 22 && s6.mem == m5);
        let s7 = step(code, s6);
        assert(s7.pc == 23 && s7.ac == a);
        assert(x * n == 0) by (nonlinear_arith)
            requires
                n == 0,
        ;
        assert(mul_loop_steps(n) == 7);
        reveal_with_fuel(run, 8);
        assert(run(code, st, 7) == s7);
    } else {
        assert(x * n == x * (n - 1) + x) by (nonlinear_arith);
        assert(x * (n - 1) >= 0) by (nonlinear_arith)
            requires
                x >= 0,
                n >= 1,
        ;
        lemma_wrap_in_word(a + x);
        lemma_wrap_in_word(n - 1);
        assert(s2.pc == 5 && s2.mem == st.mem);
        let s3 = step(code, s2);
        assert(s3.pc == 7 && s3.mem == st.mem);
        let s4 = step(code, s3);
        assert(s4.pc == 8 && s4.ac == a && s4.mem == st.mem);
        let s5 = step(code, s4);
        assert(s5.pc == 9 && s5.ac == a + x && s5.mem == st.mem);
        let s6 = step(code, s5);
        let m6 = st.mem.insert("helper_mul_acc"@, a + x);
        assert(s6.pc == 10 && s6.mem == m6);
        let s7 = step(code, s6);
        assert(s7.pc == 11 && s7.ac == n && s7.mem == m6);
        let s8 = step(code, s7);
        assert(s8.pc == 12 && s8.ac == n - 1 && s8.mem == m6);
        let s9 = step(code, s8);
        let m9 = m6.insert("helper_mul_rhs"@, n - 1);
        assert(s9.pc == 13 && s9.mem == m9);
        let s10 = step(code, s9);
        assert(s10.pc == 3 && s10.mem == m9);
        lemma_mul_loop(lt, rt, s10, a + x, x, n - 1);
        assert(mul_loop_steps(n) == 10 + mul_loop_steps(n - 1));
        lemma_run_split(code, st, 10, mul_loop_steps(n - 1));
        reveal_with_fuel(run, 11);
        assert(run(code, st, 10) == s10);
    }
}

/// The text of the `*` routine and of a call of it is the rendering of these instructions.
proof fn lemma_mul_text(lt: Seq<char>, rt: Seq<char>)
    ensures
        mul_helper_lines() == mul_helper_code().map_values(|l: Line| render(l)),
        helper_call_lines("helper_mul"@, "_lhs"@, lt, rt) == mul_call_code(lt, rt).map_values(|l: Line| render(l)),
{
    reveal_strlit("Load ");
    reveal_strlit("Store ");
    reveal_strlit("Subt ");
    reveal_strlit("Add ");
    reveal_strlit("Clear");
    reveal_strlit("Jump ");
    reveal_strlit("JumpI ");
    reveal_strlit("JnS ");
    reveal_strlit("HEX ");
    reveal_strlit("Skipcond ");
    reveal_strlit("000");
    reveal_strlit("400");
    reveal_strlit(", ");
    reveal_strlit("_lhs");
    reveal_strlit("_rhs");
    reveal_strlit("_ret");
    reveal_strlit("const_one");
    reveal_strlit("helper_mul");
    reveal_strlit("helper_mul_body");
    reveal_strlit("helper_mul_loop");
    reveal_strlit("helper_mul_continue");
    reveal_strlit("helper_mul_done");
    reveal_strlit("helper_mul_lhs");
    reveal_strlit("helper_mul_rhs");
    reveal_strlit("helper_mul_acc");
    reveal_strlit("helper_mul_ret");
    reveal_strlit("helper_mul, HEX 000");
    reveal_strlit("helper_mul_body, Clear");
    reveal_strlit("Store helper_mul_acc");
    reveal_strlit("helper_mul_loop, Load helper_mul_rhs");
    reveal_strlit("Skipcond 400");
    reveal_strlit("Jump helper_mul_continue");
    reveal_strlit("Jump helper_mul_done");
    reveal_strlit("helper_mul_continue, Load helper_mul_acc");
    reveal_strlit("Add helper_mul_lhs");
    reveal_strlit("Load helper_mul_rhs");
    reveal_strlit("Subt const_one");
    reveal_strlit("Store helper_mul_rhs");
    reveal_strlit("Jump helper_mul_loop");
    reveal_strlit("helper_mul_done, Load helper_mul_acc");
    reveal_strlit("Store helper_mul_ret");
    reveal_strlit("JumpI helper_mul");
    let a = mul_helper_lines();
    let b = mul_helper_code().map_values(|l: Line| render(l));
    assert(a.len() == b.len());
    assert(a[0] =~= b[0]);
    assert(a[1] =~= b[1]);
    assert(a[2] =~= b[2]);
    assert(a[3] =~= b[3]);
    assert(a[4] =~= b[4]);
    assert(a[5] =~= b[5]);
    assert(a[6] =~= b[6]);
    assert(a[7] =~= b[7]);
    assert(a[8] =~= b[8]);
    assert(a[9] =~= b[9]);
    assert(a[10] =~= b[10]);
    assert(a[11] =~= b[11]);
    assert(a[12] =~= b[12]);
    assert(a[13] =~= b[13]);
    assert(a[14] =~= b[14]);
    assert(a[15] =~= b[15]);
    assert(a[16] =~= b[16]);
    assert(a =~= b);
    let c = helper_call_lines("helper_mul"@, "_lhs"@, lt, rt);
    let e = mul_call_code(lt, rt).map_values(|l: Line| render(l));
    assert(c[1] =~= e[1]);
    assert(c[3] =~= e[3]);
    assert(c[4] =~= e[4]);
    assert(c[5] =~= e[5]);
    assert(c =~= e);
}

/// What the code for `*` computes: emission of `x * y` (with the left operand in cell `lt`
/// and the right one in cell `rt`) appends a call of the `*` routine that passes `lt` and
/// `rt` as its left and right operands, and asks for the routine. Run on the MARIE machine
/// after the routine, with `0 <= x`, `0 <= y` and `x * y` within the 16-bit word, the
/// constant cell holding 1, and the right operand's cell not the routine's own left-operand
/// cell, the call ends right after its last line with `x * y` in the accumulator.
pub proof fn law_multiplication_code_computes_product(s: EmitView, lt: Seq<char>, rt: Seq<char>,
    mem: Map<Seq<char>, int>, x: int, y: int, ac: int)
    requires
        mem[lt] == x,
        mem[rt] == y,
        mem["const_one"@] == 1,
        0 <= x <= 0x7fff,
        0 <= y <= 0x7fff,
        x * y <= 0x7fff,
        rt != "helper_mul_lhs"@,
    ensures
        binop(s, BinaryOp::Multiply, lt, rt) == Ok::<EmitView, EmitFault>(with_instrs(
            EmitView { needs_mul_helper: true, ..s },
            mul_call_code(lt, rt).map_values(|l: Line| render(l)),
        )),
        mul_helper_lines() == mul_helper_code().map_values(|l: Line| render(l)),
        run(mul_program(lt, rt), MachineState { ac, pc: 17, mem }, 7 + mul_loop_steps(y)).pc
            == mul_program(lt, rt).len(),
        run(mul_program(lt, rt), MachineState { ac, pc: 17, mem }, 7 + mul_loop_steps(y)).ac == x * y,
{
    lemma_mul_text(lt, rt);
    lemma_mul_names();
    lemma_mul_labels(lt, rt);
    let code = mul_program(lt, rt);
    let s0 = MachineState { ac, pc: 17, mem };
    let s1 = step(code, s0);
    assert(s1.ac == x && s1.pc == 18 && s1.mem == mem);
    let s2 = step(code, s1);
    let m2 = mem.insert("helper_mul_lhs"@, x);
    assert(s2.pc == 19 && s2.mem == m2);
    let s3 = step(code, s2);
    assert(s3.ac == y && s3.pc == 20 && s3.mem == m2);
    let s4 = step(code, s3);
    let m4 = m2.insert("helper_mul_rhs"@, y);
    assert(s4.pc == 21 && s4.mem == m4);
    let s5 = step(code, s4);
    let m5 = m4.insert("helper_mul"@, 22);
    assert(s5.pc == 1 && s5.mem == m5);
    let s6 = step(code, s5);
    assert(s6.pc == 2 && s6.ac == 0 && s6.mem == m5);
    let s7 = step(code, s6);
    let m7 = m5.insert("helper_mul_acc"@, 0);
    assert(s7.pc == 3 && s7.mem == m7);
    lemma_mul_loop(lt, rt, s7, 0, x, y);
    lemma_run_split(code, s0, 7, mul_loop_steps(y));
    reveal_with_fuel(run, 8);
    assert(run(code, s0, 7) == s7);
}

} // verus!
