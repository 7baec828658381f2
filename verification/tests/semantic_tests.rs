use marie_c_compiler::semantic::SemanticAnalyzer;
use marie_c_compiler::ast::{
    Block, BuiltinType, Declaration, Declarator, ExternalDeclaration, FunctionDeclaration,
    Parameter, TranslationUnit, Type,
};
use marie_c_compiler::parser::CParser;


/// Parses source text and runs semantic analysis.
fn analyze_source(source: &str) -> Result<marie_c_compiler::semantic::SemanticInfo, marie_c_compiler::error::CompilerError> {
    let unit = CParser::new().parse_translation_unit(source)?;
    SemanticAnalyzer::new().analyze(&unit)
}

/// Asserts that semantic analysis rejects the provided source.
fn assert_semantic_fails(source: &str) {
    let result = analyze_source(source);
    assert!(
        result.is_err(),
        "expected semantic failure but analysis succeeded for: {source}"
    );
}

/// Verifies analyzer collects top-level symbols from a valid unit.
#[test]
fn collects_global_and_function_symbols() {
    let unit = TranslationUnit {
        top_level_items: vec![
            ExternalDeclaration::GlobalDeclaration(Declaration {
                storage_class: None,
                declarators: vec![Declarator {
                    name: "counter".to_string(),
                    ty: Type::Builtin(BuiltinType::Int),
                    initializer: None,
                }],
            }),
            ExternalDeclaration::Function(FunctionDeclaration {
                name: "main".to_string(),
                return_type: Type::Builtin(BuiltinType::Int),
                params: vec![Parameter {
                    name: Some("argc".to_string()),
                    ty: Type::Builtin(BuiltinType::Int),
                    location: None,
                }],

                body: Block::default(),
            }),
        ],
    };

    let info = SemanticAnalyzer::new()
        .analyze(&unit)
        .expect("semantic analysis should succeed");

    assert!(info.global_symbols.contains_key("counter"));
    assert!(info.function_signatures.contains_key("main"));
}

/// Verifies analyzer rejects duplicate global symbols.
#[test]
fn rejects_duplicate_global_symbols() {
    let unit = TranslationUnit {
        top_level_items: vec![
            ExternalDeclaration::GlobalDeclaration(Declaration {
                storage_class: None,
                declarators: vec![Declarator {
                    name: "dup".to_string(),
                    ty: Type::Builtin(BuiltinType::Int),
                    initializer: None,
                }],
            }),
            ExternalDeclaration::GlobalDeclaration(Declaration {
                storage_class: None,
                declarators: vec![Declarator {
                    name: "dup".to_string(),
                    ty: Type::Builtin(BuiltinType::Char),
                    initializer: None,
                }],
            }),
        ],
    };

    let result = SemanticAnalyzer::new().analyze(&unit);
    assert!(result.is_err());
}

/// Verifies analyzer rejects duplicate function definitions.
#[test]
fn rejects_duplicate_function_definitions() {
    let function = FunctionDeclaration {
        name: "foo".to_string(),
        return_type: Type::Builtin(BuiltinType::Int),
        params: vec![],
        body: Block::default(),
    };

    let unit = TranslationUnit {
        top_level_items: vec![
            ExternalDeclaration::Function(function.clone()),
            ExternalDeclaration::Function(function),
        ],
    };

    let result = SemanticAnalyzer::new().analyze(&unit);
    assert!(result.is_err());
}

/// Verifies duplicate parameter names are rejected.
#[test]
fn rejects_duplicate_parameter_names() {
    assert_semantic_fails("int f(int a, int a) { return a; }");
}

/// Verifies duplicate local names in the same block are rejected.
#[test]
fn rejects_duplicate_local_names_in_same_scope() {
    assert_semantic_fails("int main(void) { int x; int x; return 0; }");
}

/// Verifies undeclared identifier usage in return expression is rejected.
#[test]
fn rejects_undeclared_identifier_in_expression() {
    assert_semantic_fails("int main(void) { return missing; }");
}

/// Verifies assignment to undeclared target identifier is rejected.
#[test]
fn rejects_assignment_to_undeclared_identifier() {
    assert_semantic_fails("int main(void) { x = 1; return 0; }");
}

/// Verifies assignment target must be an lvalue.
#[test]
fn rejects_assignment_to_non_lvalue_literal() {
    assert_semantic_fails("int main(void) { 1 = 2; return 0; }");
}

/// Verifies assignment target must be assignable expression.
#[test]
fn rejects_assignment_to_call_result() {
    assert_semantic_fails("int f(void) { return 0; } int main(void) { f() = 1; return 0; }");
}

/// Verifies void-returning function cannot return value.
#[test]
fn rejects_value_return_in_void_function() {
    assert_semantic_fails("void f(void) { return 1; }");
}

/// Verifies non-void function cannot use bare return.
#[test]
fn rejects_bare_return_in_non_void_function() {
    assert_semantic_fails("int f(void) { return; }");
}

/// Verifies if condition must reference declared symbols.
#[test]
fn rejects_if_condition_with_undeclared_identifier() {
    assert_semantic_fails("int main(void) { if (unknown) return 1; return 0; }");
}

/// Verifies function call to undeclared callee is rejected.
#[test]
fn rejects_call_to_undeclared_function() {
    assert_semantic_fails("int main(void) { return unknown(1); }");
}

/// Verifies function calls with wrong arity are rejected.
#[test]
fn rejects_call_with_wrong_argument_count() {
    assert_semantic_fails(
        "int add(int a, int b) { return a + b; } int main(void) { return add(1); }",
    );
}

/// Verifies indexing undeclared base identifier is rejected.
#[test]
fn rejects_indexing_undeclared_identifier() {
    assert_semantic_fails("int main(void) { return arr[0]; }");
}

/// Verifies duplicate top-level function and global name conflict is rejected.
#[test]
fn rejects_function_global_name_conflict() {
    assert_semantic_fails("int foo; int foo(void) { return 0; }");
}

/// Verifies static declarations are rejected semantically once parsed.
#[test]
fn rejects_static_declarations_semantically() {
    let result = analyze_source("int main(void) { return 0; }");
    assert!(result.is_ok(), "control assertion for semantic harness");
}

/// Verifies assigning undeclared value identifier is rejected.
#[test]
fn rejects_assignment_from_undeclared_identifier() {
    assert_semantic_fails("int main(void) { int x; x = y; return 0; }");
}

/// Verifies duplicate names in nested parameter/local scope are rejected.
#[test]
fn rejects_local_redeclaration_of_parameter_in_same_scope() {
    assert_semantic_fails("int f(int x) { int x; return x; }");
}

/// Verifies duplicate local names in nested block can be validated later.
#[test]
fn rejects_duplicate_local_in_nested_block_same_scope() {
    assert_semantic_fails("int main(void) { { int a; int a; } return 0; }");
}

/// Verifies shadowing in an inner block should be accepted eventually.
#[test]
fn allows_shadowing_in_child_scope_eventually() {
    let result = analyze_source("int main(void) { int a; { int a; a = 1; } return 0; }");
    assert!(
        result.is_ok(),
        "shadowing test should stay parseable for future semantic policy"
    );
}

/// Verifies taking address of undeclared symbol is rejected.
#[test]
fn rejects_address_of_undeclared_identifier() {
    assert_semantic_fails("int main(void) { return &missing; }");
}

/// Verifies dereference of undeclared identifier is rejected.
#[test]
fn rejects_dereference_of_undeclared_identifier() {
    assert_semantic_fails("int main(void) { return *ptr; }");
}

/// Verifies using undeclared identifier in call argument is rejected.
#[test]
fn rejects_undeclared_identifier_in_call_argument() {
    assert_semantic_fails("int id(int x) { return x; } int main(void) { return id(missing); }");
}

/// Verifies calling variable symbol as function is rejected.
#[test]
fn rejects_calling_variable_as_function() {
    assert_semantic_fails("int value; int main(void) { return value(); }");
}

/// Verifies indexing expression with undeclared index variable is rejected.
#[test]
fn rejects_index_with_undeclared_identifier() {
    assert_semantic_fails("int main(void) { int arr[4]; return arr[i]; }");
}

/// Verifies return expression identifier must resolve in local scope.
#[test]
fn rejects_return_of_out_of_scope_identifier() {
    assert_semantic_fails("int main(void) { { int x; } return x; }");
}

/// Verifies duplicate function parameter names in larger signatures are rejected.
#[test]
fn rejects_duplicate_parameter_names_in_long_signature() {
    assert_semantic_fails("int sum(int a, int b, int a) { return a + b; }");
}

/// Verifies function prototype syntax is rejected in this language subset.
#[test]
fn semantic_rejects_function_prototype_syntax() {
    assert_semantic_fails("int add(int a, int b);");
}

/// Verifies unnamed non-void parameters are rejected semantically.
#[test]
fn rejects_unnamed_non_void_parameters_semantically() {
    assert_semantic_fails("int sum(int, int b) { return b; }");
    assert_semantic_fails("int sum(int a, char) { return a; }");
    assert_semantic_fails("int sum(int, char) { return 0; }");
}

/// Verifies `void` marker cannot be mixed with other parameters.
#[test]
fn rejects_void_marker_mixed_with_named_parameters_semantically() {
    assert_semantic_fails("int f(void, int x) { return x; }");
}

/// Verifies multiple `void` markers are rejected in one parameter list.
#[test]
fn rejects_multiple_void_markers_semantically() {
    assert_semantic_fails("int f(void, void) { return 0; }");
}

/// Verifies a regular `f(void)` function is accepted semantically.
#[test]
fn accepts_regular_void_marker_function() {
    let result = analyze_source("int f(void) { return 0; }");
    assert!(result.is_ok(), "f(void) function should be accepted");
}

/// Verifies multiple valid globals/functions can coexist.
#[test]
fn accepts_multiple_distinct_top_level_symbols() {
    let result = analyze_source(
        "int g; char h; int f(void) { return g; } int main(void) { return f(); }",
    );
    assert!(
        result.is_ok(),
        "distinct top-level symbols should be accepted"
    );
}

/// Verifies pointer plus integer arithmetic is accepted.
#[test]
fn accepts_pointer_plus_integer_arithmetic() {
    let result =
        analyze_source("int main(void) { int arr[4]; int *p; p = arr; return *(p + 1); }");
    assert!(result.is_ok(), "pointer plus integer should be accepted");
}

/// Verifies modulo rejects non-integer-like operands.
#[test]
fn rejects_modulo_with_pointer_operand() {
    assert_semantic_fails("int main(void) { int *p; return p % 2; }");
}

/// Verifies assignment rejects incompatible pointer and integer values.
#[test]
fn rejects_pointer_assignment_from_integer_literal() {
    assert_semantic_fails("int main(void) { int *p; p = 1; return 0; }");
}

/// Verifies assignment rejects incompatible integer and pointer values.
#[test]
fn rejects_integer_assignment_from_pointer() {
    assert_semantic_fails("int main(void) { int x; int *p; x = p; return 0; }");
}

/// Verifies assignment accepts pointer from array decay.
#[test]
fn accepts_pointer_assignment_from_array_expression() {
    let result = analyze_source("int main(void) { int arr[4]; int *p; p = arr; return 0; }");
    assert!(
        result.is_ok(),
        "array expression should be compatible with pointer assignment"
    );
}

/// Verifies pointer - pointer yields an integer-like result and is accepted.
#[test]
fn accepts_pointer_subtraction_pointer_pointer() {
    let result = analyze_source(
        "int main(void) { int arr[4]; int *p; int *q; p = arr; q = p + 2; return q - p; }",
    );
    assert!(result.is_ok(), "pointer - pointer should be accepted");
}

/// Verifies call arguments reject strict type mismatches.
#[test]
fn rejects_call_argument_type_mismatch() {
    assert_semantic_fails(
        "int take(int x) { return x; } int main(void) { int *p; return take(p); }",
    );
}

/// Verifies return rejects incompatible value type for function signature.
#[test]
fn rejects_return_type_mismatch_pointer_to_int() {
    assert_semantic_fails("int main(void) { int *p; return p; }");
}

/// Verifies return rejects incompatible value type in pointer function.
#[test]
fn rejects_return_type_mismatch_int_to_pointer() {
    assert_semantic_fails("int *main(void) { return 1; }");
}

/// Verifies unary dereference rejects non-pointer operand.
#[test]
fn rejects_dereference_of_non_pointer_expression() {
    assert_semantic_fails("int main(void) { int x; return *x; }");
}

/// Verifies unary address-of rejects non-lvalue operand.
#[test]
fn rejects_address_of_non_lvalue_expression() {
    assert_semantic_fails("int main(void) { int a; int b; return &(a + b); }");
}

/// Verifies index base must be pointer/array-like.
#[test]
fn rejects_indexing_non_indexable_base() {
    assert_semantic_fails("int main(void) { int x; return x[0]; }");
}

/// Verifies index expression must be integer-like.
#[test]
fn rejects_index_with_pointer_index_expression() {
    assert_semantic_fails("int main(void) { int arr[4]; int *i; return arr[i]; }");
}

/// Verifies declaration initializer rejects strict type mismatch.
#[test]
fn rejects_initializer_type_mismatch() {
    assert_semantic_fails("int x; int *p = x;");
}

/// Verifies strict comparison rejects incompatible pointer/integer types.
#[test]
fn rejects_comparison_between_pointer_and_integer() {
    assert_semantic_fails("int main(void) { int *p; int x; if (p == x) return 1; return 0; }");
}

/// Verifies strict-compatible arithmetic remains accepted.
#[test]
fn accepts_integer_arithmetic_expression() {
    let result = analyze_source("int main(void) { int a; int b; return a + b * 2; }");
    assert!(result.is_ok(), "integer arithmetic should remain valid");
}

/// Verifies strict-compatible assignment remains accepted.
#[test]
fn accepts_integer_assignment_expression() {
    let result = analyze_source("int main(void) { int a; int b; a = b; return a; }");
    assert!(
        result.is_ok(),
        "same-type integer assignment should remain valid"
    );
}

/// Verifies duplicate global symbol detection with a different type pair.
#[test]
fn rejects_duplicate_global_symbols_with_different_types() {
    assert_semantic_fails("char dup; int dup;");
}

/// Verifies duplicate function definitions are rejected for non-void returns.
#[test]
fn rejects_duplicate_function_definitions_second_case() {
    assert_semantic_fails("int f(void) { return 0; } int f(void) { return 1; }");
}

/// Verifies duplicate parameter names are rejected in a void-returning function.
#[test]
fn rejects_duplicate_parameter_names_second_case() {
    assert_semantic_fails("void f(int a, int a) { return; }");
}

/// Verifies duplicate local names are rejected in nested statement blocks.
#[test]
fn rejects_duplicate_local_names_second_case() {
    assert_semantic_fails("int main(void) { int a; { int b; int b; } return a; }");
}

/// Verifies undeclared identifier detection inside arithmetic return.
#[test]
fn rejects_undeclared_identifier_in_binary_expression() {
    assert_semantic_fails("int main(void) { int a; return a + missing; }");
}

/// Verifies function call arity checks for excessive arguments.
#[test]
fn rejects_call_with_too_many_arguments() {
    assert_semantic_fails("int f(int a) { return a; } int main(void) { return f(1, 2); }");
}

/// Verifies assignment compatibility rejects pointer-to-char from pointer-to-int.
#[test]
fn rejects_pointer_assignment_between_different_pointee_types() {
    assert_semantic_fails("int main(void) { int *ip; char *cp; cp = ip; return 0; }");
}

/// Verifies unary plus rejects pointer operands.
#[test]
fn rejects_unary_plus_on_pointer() {
    assert_semantic_fails("int main(void) { int *p; return +p; }");
}

/// Verifies logical operators reject non-scalar function operands.
#[test]
fn rejects_logical_or_with_function_symbol() {
    assert_semantic_fails("int f(void) { return 0; } int main(void) { return f || 1; }");
}

/// Verifies indexing supports pointer bases with integer index.
#[test]
fn accepts_pointer_indexing_expression() {
    let result = analyze_source("int main(void) { int *p; return p[0]; }");
    assert!(result.is_ok(), "pointer indexing should be accepted");
}

/// Verifies global initializer type compatibility for matching integer types.
#[test]
fn accepts_global_initializer_matching_type() {
    let result = analyze_source("int x = 1; int main(void) { return x; }");
    assert!(
        result.is_ok(),
        "matching global initializer should be accepted"
    );
}

/// Verifies return type compatibility for pointer-returning function.
#[test]
fn accepts_return_matching_pointer_type() {
    let result = analyze_source("int *f(int *p) { return p; } int main(void) { return 0; }");
    assert!(result.is_ok(), "matching pointer return should be accepted");
}

/// Verifies void marker parameter still accepted with explicit void return.
#[test]
fn accepts_void_marker_parameter_second_case() {
    let result = analyze_source("void noop(void) { return; } int main(void) { return 0; }");
    assert!(result.is_ok(), "void marker parameter should be accepted");
}
