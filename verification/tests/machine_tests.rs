use std::collections::HashMap;

use marie_c_compiler::codegen::{Codegen, MarieCodegen};
use marie_c_compiler::compiler::DefaultCompiler;
use marie_c_compiler::error::CompilerError;

fn compile(source: &str) -> Result<String, CompilerError> {
    DefaultCompiler::new().compile_source(source)
}

fn message_of(error: &CompilerError) -> String {
    match error {
        CompilerError::Parse(d) | CompilerError::Semantic(d) | CompilerError::Unsupported(d) => d.message.clone(),
    }
}

fn wrap(v: i64) -> i64 {
    ((v + 0x8000).rem_euclid(0x10000)) - 0x8000
}

/// Runs a MARIE program (one word per line, labels resolved by name) and returns what it
/// printed.
fn run_marie(program: &str) -> Vec<i64> {
    let mut lines: Vec<(Option<String>, String)> = Vec::new();
    for raw in program.lines() {
        let line = raw.trim();
        if line.is_empty() || line.starts_with('/') {
            continue;
        }
        match line.split_once(", ") {
            Some((label, rest)) if !label.contains(' ') => {
                lines.push((Some(label.to_string()), rest.trim().to_string()))
            }
            _ => lines.push((None, line.to_string())),
        }
    }
    let mut address: HashMap<String, i64> = HashMap::new();
    for (i, (label, _)) in lines.iter().enumerate() {
        if let Some(l) = label {
            address.insert(l.clone(), i as i64);
        }
    }
    let resolve = |name: &str| -> i64 {
        *address.get(name).unwrap_or_else(|| panic!("undefined label {name}"))
    };
    let mut memory: Vec<i64> = vec![0; lines.len()];
    for (i, (_, body)) in lines.iter().enumerate() {
        let mut parts = body.split_whitespace();
        let op = parts.next().unwrap_or("");
        let arg = parts.next().unwrap_or("");
        memory[i] = match op {
            "DEC" => arg.parse::<i64>().expect("decimal cell"),
            "HEX" => i64::from_str_radix(arg, 16).expect("hex cell"),
            "ADR" => resolve(arg),
            _ => 0,
        };
    }
    let mut output = Vec::new();
    let mut ac: i64 = 0;
    let mut pc: i64 = resolve("_start");
    for _ in 0..1_000_000 {
        let (_, body) = &lines[pc as usize];
        let mut parts = body.split_whitespace();
        let op = parts.next().unwrap_or("");
        let arg = parts.next().unwrap_or("");
        pc += 1;
        match op {
            "Load" => ac = memory[resolve(arg) as usize],
            "Store" => memory[resolve(arg) as usize] = ac,
            "Add" => ac = wrap(ac + memory[resolve(arg) as usize]),
            "Subt" => ac = wrap(ac - memory[resolve(arg) as usize]),
            "Clear" => ac = 0,
            "LoadI" => ac = memory[memory[resolve(arg) as usize] as usize],
            "StoreI" => {
                let target = memory[resolve(arg) as usize] as usize;
                memory[target] = ac;
            }
            "Skipcond" => {
                let skip = match arg {
                    "000" => ac < 0,
                    "400" => ac == 0,
                    "800" => ac > 0,
                    "0C00" => ac != 0,
                    other => panic!("unknown condition {other}"),
                };
                if skip {
                    pc += 1;
                }
            }
            "Jump" => pc = resolve(arg),
            "JnS" => {
                let target = resolve(arg);
                memory[target as usize] = pc;
                pc = target + 1;
            }
            "JumpI" => pc = memory[resolve(arg) as usize],
            "Output" => output.push(ac),
            "Halt" => return output,
            other => panic!("cannot execute {other}"),
        }
    }
    panic!("program did not halt");
}

fn result_of(source: &str) -> i64 {
    let program = compile(source).unwrap_or_else(|e| panic!("{source}: {}", e.to_display_string()));
    let output = run_marie(&program);
    assert_eq!(output.len(), 1, "{source}");
    output[0]
}

#[test]
fn nested_calls_keep_outer_arguments() {
    assert_eq!(result_of("int add(int a, int b) { return a + b; }\nint main(void) { return add(1, add(2, 3)); }"), 6);
    assert_eq!(result_of("int sub(int a, int b) { return a - b; }\nint main(void) { return sub(sub(10, 3), sub(4, 1)); }"), 4);
}

#[test]
fn comparisons_compute_c_values() {
    let cases = [(5, 3), (3, 5), (4, 4), (-2, 7), (7, -2), (0, 0)];
    for (a, b) in cases {
        for (op, expected) in [
            ("<", (a < b) as i64),
            ("<=", (a <= b) as i64),
            (">", (a > b) as i64),
            (">=", (a >= b) as i64),
            ("==", (a == b) as i64),
            ("!=", (a != b) as i64),
        ] {
            let source = format!("int main(void) {{ int a; int b; a = {a}; b = {b}; return a {op} b; }}");
            assert_eq!(result_of(&source), expected, "{source}");
        }
    }
}

#[test]
fn logical_operators_compute_c_values() {
    for a in [0, 1, 5] {
        for b in [0, 1, -3] {
            let and = format!("int main(void) {{ int a; int b; a = {a}; b = {b}; return a && b; }}");
            let or = format!("int main(void) {{ int a; int b; a = {a}; b = {b}; return a || b; }}");
            assert_eq!(result_of(&and), (a != 0 && b != 0) as i64, "{and}");
            assert_eq!(result_of(&or), (a != 0 || b != 0) as i64, "{or}");
        }
    }
}

#[test]
fn if_statement_defines_its_constant_cell() {
    let source = "int main(void) { int x; x = 1; if (x) return 2; return 3; }";
    let program = compile(source).expect("program should compile");
    assert!(program.contains("const_zero, DEC 0"));
    assert_eq!(run_marie(&program), vec![2]);
    assert_eq!(result_of("int main(void) { int x; x = 5; if (x - 5) return 2; else return 3; }"), 3);
}

#[test]
fn globals_start_with_constant_initializers() {
    assert_eq!(result_of("int g = -3;\nint main(void) { return g; }"), -3);
    assert_eq!(result_of("int g = - -4;\nint main(void) { return g; }"), 4);
    assert_eq!(result_of("int arr[3] = {1, -2, 3};\nint main(void) { return arr[1]; }"), -2);
    let program = compile("int g = -3;\nint main(void) { return g; }").expect("program should compile");
    assert!(program.contains("g_g, DEC -3"));
}

#[test]
fn globals_with_computed_initializers_are_set_at_start() {
    assert_eq!(result_of("int a = 1;\nint b = a;\nint main(void) { return b; }"), 1);
    assert_eq!(result_of("int a = 4;\nint g = a * 3 + 1;\nint main(void) { return g; }"), 13);
    let program = compile("int a;\nint g = a;\nint main(void) { return g; }").expect("program should compile");
    assert!(program.contains("_start, Clear\nLoad g_a\nStore g_g\nJnS fn_main"));
    assert!(program.contains("g_g, DEC 0"));
}

#[test]
fn global_brace_lists_must_be_constant() {
    let error = compile("int a;\nint g[2] = {a, 1};\nint main(void) { return g[0]; }").expect_err("non-constant list");
    assert!(matches!(error, CompilerError::Semantic(_)));
    assert_eq!(message_of(&error), "global initializer is not a constant expression");
}

#[test]
fn static_locals_are_refused_by_the_target() {
    let error = compile("int main(void) { static int x; x = 1; return x; }").expect_err("static local");
    assert!(matches!(error, CompilerError::Unsupported(_)));
    assert_eq!(message_of(&error), "static storage class not supported by target");
    let nested = compile("int main(void) { if (1) { static int y; } return 0; }").expect_err("nested static local");
    assert_eq!(message_of(&nested), "static storage class not supported by target");
}

#[test]
fn division_and_arithmetic_need_integer_operands() {
    let error = compile("int main(void) { int *p; return p / 2; }").expect_err("pointer division");
    assert_eq!(message_of(&error), "arithmetic operators require matching integer-like operands");
    assert_eq!(result_of("int main(void) { int a; a = 17; return a / 5; }"), 3);
    assert_eq!(result_of("int main(void) { char a; char b; a = 9; b = 2; return a / b; }"), 4);
}

#[test]
fn assignments_admit_documented_conversions() {
    assert_eq!(result_of("int main(void) { int x; char c; c = 7; x = c; return x; }"), 7);
    assert_eq!(result_of("int main(void) { int x; char c; x = 65; c = x; return c; }"), 65);
    assert_eq!(result_of("int main(void) { int *p; p = 0; return 1; }"), 1);
    assert_eq!(result_of("int take(char c) { return c; }\nint main(void) { int x; x = 3; return take(x); }"), 3);
    let error = compile("int main(void) { int *p; p = 1; return 0; }").expect_err("nonzero integer to pointer");
    assert_eq!(message_of(&error), "assignment types are incompatible");
}

#[test]
fn arity_errors_name_both_counts() {
    let error = compile("int f(int a, int b) { return a; }\nint main(void) { return f(1); }").expect_err("arity");
    assert_eq!(message_of(&error), "function 'f' expects 2 arguments but got 1");
}

#[test]
fn increments_update_the_variable() {
    assert_eq!(result_of("int main(void) { int x; int y; x = 5; y = x++; return y * 10 + x; }"), 56);
    assert_eq!(result_of("int main(void) { int x; int y; x = 5; y = ++x; return y * 10 + x; }"), 66);
    assert_eq!(result_of("int main(void) { int x; int y; x = 5; y = x--; return y * 10 + x; }"), 54);
    assert_eq!(result_of("int main(void) { int x; int y; x = 5; y = --x; return y * 10 + x; }"), 44);
}

#[test]
fn constant_pool_keeps_one_cell_per_value() {
    let program = compile("int main(void) { int a; a = 7; return a + 7; }").expect("program should compile");
    assert_eq!(program.matches("const_int_7, DEC 7").count(), 1);
    assert_eq!(run_marie(&program), vec![14]);
}

#[test]
fn pointer_array_compatibility_is_symmetric() {
    assert!(compile("int main(void) { int arr[3]; int *p; p = arr; return p == arr; }").is_ok());
    assert!(compile("int main(void) { int arr[3]; int *p; p = arr; return arr == p; }").is_ok());
}

#[test]
fn stores_through_computed_addresses_keep_the_value() {
    assert_eq!(result_of("int main(void) { int a[3]; int i; i = -1; a[-i] = 7; return a[1]; }"), 7);
    assert_eq!(result_of("int main(void) { int a[3]; int b[2]; b[0] = 2; a[b[0] = 1] = 5; return a[1] * 10 + b[0]; }"), 51);
    assert_eq!(result_of("int main(void) { int x; int *p; p = &x; *p = -4; return x; }"), -4);
}

fn emitted_result(source: &str) -> i64 {
    let unit = marie_c_compiler::parser::CParser::new().parse_translation_unit(source).expect("source should parse");
    let program = MarieCodegen.emit(&unit).unwrap_or_else(|e| panic!("{source}: {}", e.to_display_string()));
    let output = run_marie(&program);
    assert_eq!(output.len(), 1, "{source}");
    output[0]
}

#[test]
fn struct_members_are_separate_cells() {
    assert_eq!(emitted_result("struct Point { int x; int y; } p; int main(void) { p.x = 9; p.y = 4; return p.y * 10 + p.x; }"), 49);
    assert_eq!(emitted_result("typedef struct Point { int x; int y; } Point; Point p; int main(void) { Point *q; q = &p; q->y = 7; p.x = 2; return q->x * 10 + p.y; }"), 27);
    assert_eq!(emitted_result("typedef struct Point { int x; int y; } Point; Point arr[3]; int main(void) { arr[0].y = 5; arr[1].x = 6; arr[2].y = 8; return arr[0].y * 100 + arr[1].x * 10 + arr[2].y; }"), 568);
    assert_eq!(emitted_result("struct Point { int x; int y; } p; int main(void) { p.x = 1; p.x++; ++p.y; return p.x * 10 + p.y; }"), 21);
}

#[test]
fn enumeration_constants_take_their_values() {
    assert_eq!(emitted_result("enum Color { RED, GREEN = 3, BLUE }; int main(void) { return RED * 100 + GREEN * 10 + BLUE; }"), 34);
    assert_eq!(emitted_result("enum Level { LOW = -2, MID, HIGH = 7, }; int main(void) { return MID * 10 + HIGH; }"), -3);
    assert_eq!(emitted_result("typedef enum Color { RED, GREEN } Color; Color c; int main(void) { c = GREEN; return c + 5; }"), 6);
}

#[test]
fn readme_struct_example_prints_its_digits() {
    let source = r#"
void putchar(char c){
    __asm(
        "Load %c",
        "Output"
    );
}

typedef struct Point {
    int x;
    int y;
} Point;

int main(void){
    Point p;
    p.x = 1;
    p.y = 2;

    putchar(p.x + 48);
    putchar(p.y + 48);
    putchar(10);

    return 0;
}
"#;
    let program = compile(source).unwrap_or_else(|e| panic!("{}", e.to_display_string()));
    assert_eq!(run_marie(&program), vec![49, 50, 10, 0]);
}

#[test]
fn analysis_accepts_structs_and_enumerations() {
    assert_eq!(result_of("typedef enum Color { RED, GREEN = 3 } Color; Color c; int main(void) { c = GREEN; return c + RED; }"), 3);
    assert_eq!(result_of("enum Color { RED, GREEN = 3 }; int main(void) { enum Color c = GREEN; return c * 2; }"), 6);
    assert_eq!(result_of("struct Node { int value; struct Node *next; } a, b; int main(void) { a.next = &b; b.value = 7; return a.next->value; }"), 7);
    let error = compile("struct Point { int x; } p; int main(void) { return p.z; }").expect_err("unknown member");
    assert_eq!(message_of(&error), "struct has no member named 'z'");
}
