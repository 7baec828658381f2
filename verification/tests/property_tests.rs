use marie_c_compiler::compiler::DefaultCompiler;
use marie_c_compiler::error::{CompilerError, Diagnostic, SourceLocation};
use marie_c_compiler::lexer::{lex, TokenKind};
use marie_c_compiler::paths::default_output_path;

fn compile(source: &str) -> Result<String, CompilerError> {
    DefaultCompiler::new().compile_source(source)
}

fn message_of(error: &CompilerError) -> String {
    match error {
        CompilerError::Parse(d) | CompilerError::Semantic(d) | CompilerError::Unsupported(d) => d.message.clone(),
    }
}

#[test]
fn program_text_starts_with_entry_code() {
    let output = compile("int twice(int a) { return a * 2; }\nint main(void) { int x = 5; return twice(x) / 2; }")
        .expect("program should compile");
    assert!(output.starts_with(
        "/ marie-c-compiler output\n_start, Clear\nJnS fn_main\nLoad fn_main_ret\nOutput\nHalt\n"
    ));
    assert!(output.contains("\n/ data\n"));
}

#[test]
fn validation_refuses_shift_before_emission() {
    let error = compile("int main(void) { return 1 << 2; }").expect_err("shift is not supported");
    assert!(matches!(error, CompilerError::Unsupported(_)));
    assert_eq!(message_of(&error), "operator ShiftLeft not supported by target");
}

#[test]
fn emission_without_validation_reports_operator() {
    let compiler = DefaultCompiler::new();
    let error = compiler
        .compile_source_no_validation("int main(void) { return 6 ^ 3; }")
        .expect_err("xor has no MARIE code");
    assert!(matches!(error, CompilerError::Unsupported(_)));
    assert_eq!(message_of(&error), "binary operator BitwiseXor not supported by target");
}

#[test]
fn global_named_like_later_function_is_rejected() {
    let error = compile("int f;\nint f(void) { return 0; }\nint main(void) { return 0; }")
        .expect_err("names must be unique at top level");
    assert!(matches!(error, CompilerError::Semantic(_)));
}

#[test]
fn nested_block_may_shadow_but_block_may_not_redeclare() {
    assert!(compile("int main(void) { int x = 1; { int x = 2; } int y = x; return y; }").is_ok());
    let error = compile("int main(void) { int x; { int y; } int x; return 0; }")
        .expect_err("x is declared twice in one block");
    assert!(matches!(error, CompilerError::Semantic(_)));
    let error = compile("int main(void) { int a, a; return 0; }").expect_err("one declaration, one name twice");
    assert!(matches!(error, CompilerError::Semantic(_)));
}

#[test]
fn output_path_replaces_extension_and_is_stable() {
    assert_eq!(default_output_path("dir/prog.c"), "dir/prog.mas");
    assert_eq!(default_output_path("dir/prog.mas"), "dir/prog.mas");
    assert_eq!(default_output_path(&default_output_path("a.b/c.tar.i")), "a.b/c.tar.mas");
    assert_eq!(default_output_path("noext"), "noext.mas");
    assert_eq!(default_output_path("dir/.hidden"), "dir/.hidden.mas");
    assert_eq!(default_output_path("dir/"), "dir.mas");
    assert_eq!(default_output_path("dir/prog.c/."), "dir/prog.mas");
    assert_eq!(default_output_path(".."), "..");
    assert_eq!(default_output_path("a/.."), "a/..");
    assert_eq!(default_output_path("./"), "./");
    assert_eq!(default_output_path("/"), "/");
}

#[test]
fn lexer_reads_maximal_tokens_and_skips_comments() {
    let src: Vec<char> = "a<=b // note\n/* block */ 12>>x \"s\\\"t\"".chars().collect();
    let tokens = lex(&src).expect("source should lex");
    let kinds: Vec<TokenKind> = tokens.iter().map(|t| t.kind).collect();
    assert_eq!(
        kinds,
        vec![
            TokenKind::Identifier,
            TokenKind::LessEqual,
            TokenKind::Identifier,
            TokenKind::IntConstant,
            TokenKind::ShiftRight,
            TokenKind::Identifier,
            TokenKind::StringLiteral,
            TokenKind::Eof,
        ]
    );
    assert_eq!(tokens[3].text, "12");
    assert_eq!((tokens[3].line, tokens[3].column), (2, 13));
    assert_eq!(tokens[6].text, "\"s\\\"t\"");
    let again = lex(&src).expect("source should lex");
    assert_eq!(again.len(), tokens.len());
}

#[test]
fn lexer_rejects_unterminated_comment_and_string() {
    let comment: Vec<char> = "int x; /* open".chars().collect();
    assert!(matches!(lex(&comment), Err(CompilerError::Parse(_))));
    let string: Vec<char> = "\"open".chars().collect();
    assert!(matches!(lex(&string), Err(CompilerError::Parse(_))));
    let stray: Vec<char> = "int @".chars().collect();
    assert!(matches!(lex(&stray), Err(CompilerError::Parse(_))));
}

#[test]
fn error_text_names_category_and_position() {
    let located = CompilerError::Semantic(Diagnostic {
        message: "bad thing".to_string(),
        location: Some(SourceLocation { line: 3, column: 14 }),
    });
    assert_eq!(located.to_display_string(), "semantic error at line 3, column 14: bad thing");
    let bare = CompilerError::Unsupported(Diagnostic { message: "nope".to_string(), location: None });
    assert_eq!(bare.to_display_string(), "unsupported error: nope");
    let parse = CompilerError::parse("expected ';'".to_string());
    assert_eq!(parse.to_display_string(), "parse error: expected ';'");
}

#[test]
fn semantic_errors_carry_their_messages() {
    let cases = [
        ("int main(void) { return y; }", "undeclared identifier 'y'"),
        ("int main(void) { int x; int x; return 0; }", "multiple declarations of the same variable found."),
        ("void f(void) { return 1; }\nint main(void) { return 0; }", "cant return a value on a void function."),
        ("int f;\nint f(void) { return 0; }", "symbol 'f' used as both global and function"),
        ("int f(int a, int a) { return 0; }", "multiple parameter declarations with the same name found in function."),
        ("int g(int a) { return a; }\nint main(void) { return g(1, 2); }", "function 'g' expects 1 arguments but got 2"),
        ("int main(void) { 3 = 4; return 0; }", "assignment target is not an lvalue"),
    ];
    for (source, message) in cases {
        let error = compile(source).expect_err(source);
        assert!(matches!(error, CompilerError::Semantic(_)), "{source}");
        assert_eq!(message_of(&error), message, "{source}");
    }
}

#[test]
fn helper_routines_appear_only_when_used() {
    let plain = compile("int main(void) { int a = 7; return a + 1; }").expect("program should compile");
    assert!(!plain.contains("helper_mul"));
    assert!(!plain.contains("helper_mod"));
    assert!(!plain.contains("helper_div"));
    let product = compile("int main(void) { int a = 7; return a * 3; }").expect("program should compile");
    assert!(product.contains("helper_mul, HEX 000"));
    assert!(!product.contains("helper_mod"));
    assert!(!product.contains("helper_div"));
}

#[test]
fn parse_errors_carry_message_and_position() {
    let cases = [
        ("int main(void) { return 0 }", "expected ';' after return", 1, 27),
        ("int main(void) { int x = ; return x; }", "expected expression", 1, 26),
        ("int f(int a);", "function prototypes are not supported", 1, 1),
        ("int main(void) { return 0;", "expected '}'", 1, 27),
        ("int x = 99999999999999999999;", "number too large to fit in target type", 1, 9),
        ("int main(void) {\n  return 0; } @", "unexpected character", 2, 15),
        ("int main(void) { /* open", "unterminated comment", 1, 18),
    ];
    for (source, message, line, column) in cases {
        let error = compile(source).expect_err(source);
        match error {
            CompilerError::Parse(d) => {
                assert_eq!(d.message, message, "{source}");
                assert_eq!(d.location, Some(SourceLocation { line, column }), "{source}");
            },
            other => panic!("{source}: expected a parse error, got {other:?}"),
        }
    }
}

#[test]
fn output_path_agrees_with_std_set_extension() {
    let inputs = [
        "examples/hello.i", "dir/", "dir/prog.c/.", "a//b.c", "..", "a/..", "./", "/", "/.", ".", "",
        ".hidden", "a.", "a..", "...", "x/y.tar.gz", "./a.c", "a/./", "a/b/.", "a/.b",
    ];
    for input in inputs {
        let mut expected = std::path::PathBuf::from(input);
        expected.set_extension("mas");
        assert_eq!(default_output_path(input), expected.to_string_lossy(), "{input}");
    }
}

#[test]
fn increments_update_lvalues_and_yield_old_or_new_value() {
    let output = compile("int main(void) { int a[2]; int *p; int i = 0; p = &i; a[1]++; --*p; return i++ + ++i; }")
        .expect("program should compile");
    assert!(output.contains("LoadI helper_addr\nStore tmp_inc_"));
    assert!(output.contains("Add const_one\nStoreI helper_addr"));
    assert!(output.contains("LoadI helper_addr\nSubt const_one\nStoreI helper_addr"));
    assert!(output.contains("Load v_main_2_i\nAdd const_one\nStore v_main_2_i"));
    let error = compile("int main(void) { ++3; return 0; }").expect_err("a literal cannot be incremented");
    assert_eq!(message_of(&error), "increment or decrement target is not an lvalue");
}
