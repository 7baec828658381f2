use marie_c_compiler::parser::CParser;
use marie_c_compiler::ast::{
    BinaryOp, BlockItem, BuiltinType, Expression, ExternalDeclaration, Statement, StorageClass,
    Type, UnaryOp,
};


/// Parses source text into a translation unit for test assertions.
fn parse_unit(source: &str) -> marie_c_compiler::ast::TranslationUnit {
    CParser::new()
        .parse_translation_unit(source)
        .expect("source should parse")
}

/// Asserts that source text fails parsing for unsupported or invalid grammar.
fn assert_parse_fails(source: &str) {
    let result = CParser::new().parse_translation_unit(source);
    assert!(result.is_err(), "expected parse failure for: {source}");
}

/// Asserts that source text parses successfully.
fn assert_parse_succeeds(source: &str) {
    let result = CParser::new().parse_translation_unit(source);
    assert!(result.is_ok(), "expected parse success for: {source}");
}

/// Verifies lowering of an empty translation unit.
#[test]
fn lowers_empty_translation_unit() {
    let unit = parse_unit("");
    assert!(unit.top_level_items.is_empty());
}

/// Verifies lowering of a basic function definition.
#[test]
fn lowers_single_function_definition() {
    let unit = parse_unit("int main(void) { return 0; }");
    assert_eq!(unit.top_level_items.len(), 1);

    let ExternalDeclaration::Function(function) = &unit.top_level_items[0] else {
        panic!("expected function external declaration");
    };

    assert_eq!(function.name, "main");
    assert_eq!(function.return_type, Type::Builtin(BuiltinType::Int));
    assert_eq!(function.params.len(), 1);
    assert!(matches!(
        function.params[0].ty,
        Type::Builtin(BuiltinType::Void)
    ));

    let body = &function.body;
    assert_eq!(body.items.len(), 1);

    let BlockItem::Statement(Statement::Return(Some(Expression::IntegerLiteral {
        value, ..
    }))) = &body.items[0]
    else {
        panic!("expected return integer literal statement");
    };

    assert_eq!(*value, 0);
}

/// Verifies lowering of a single global variable declaration.
#[test]
fn lowers_global_variable_declaration() {
    let unit = parse_unit("int counter;");
    assert_eq!(unit.top_level_items.len(), 1);

    let ExternalDeclaration::GlobalDeclaration(declaration) = &unit.top_level_items[0] else {
        panic!("expected global declaration");
    };

    assert_eq!(declaration.declarators.len(), 1);
    let declarator = &declaration.declarators[0];
    assert_eq!(declarator.name, "counter");
    assert_eq!(declarator.ty, Type::Builtin(BuiltinType::Int));
    assert!(declarator.initializer.is_none());
}

/// Verifies pointer and fixed-size array declarator lowering.
#[test]
fn lowers_pointer_and_array_declarators() {
    let unit = parse_unit("char *ptr; int values[16];");
    assert_eq!(unit.top_level_items.len(), 2);

    let ExternalDeclaration::GlobalDeclaration(pointer_decl) = &unit.top_level_items[0] else {
        panic!("expected pointer declaration");
    };
    assert!(matches!(pointer_decl.declarators[0].ty, Type::Pointer(_)));

    let ExternalDeclaration::GlobalDeclaration(array_decl) = &unit.top_level_items[1] else {
        panic!("expected array declaration");
    };
    assert!(matches!(array_decl.declarators[0].ty, Type::Array { .. }));
}

/// Verifies lowering of an `if`/`else` statement shape.
#[test]
fn lowers_if_else_statement() {
    let unit = parse_unit("int main(void) { if (1) return 1; else return 0; }");

    let ExternalDeclaration::Function(function) = &unit.top_level_items[0] else {
        panic!("expected function declaration");
    };
    let body = &function.body;

    let BlockItem::Statement(Statement::If {
        condition,
        then_branch,
        else_branch,
    }) = &body.items[0]
    else {
        panic!("expected if statement");
    };

    assert!(matches!(
        condition,
        Expression::IntegerLiteral { value: 1, .. }
    ));
    assert!(matches!(**then_branch, Statement::Return(_)));
    assert!(else_branch.is_some());
    assert!(matches!(
        **else_branch.as_ref().expect("expected else branch"),
        Statement::Return(_)
    ));
}

/// Verifies additive vs multiplicative precedence in lowered AST.
#[test]
fn lowers_expression_precedence_for_add_and_multiply() {
    let unit = parse_unit("int main(void) { return 1 + 2 * 3; }");

    let ExternalDeclaration::Function(function) = &unit.top_level_items[0] else {
        panic!("expected function declaration");
    };
    let body = &function.body;

    let BlockItem::Statement(Statement::Return(Some(Expression::Binary { op, rhs, .. }))) =
        &body.items[0]
    else {
        panic!("expected binary expression in return");
    };

    assert_eq!(*op, BinaryOp::Add);
    assert!(matches!(
        **rhs,
        Expression::Binary {
            op: BinaryOp::Multiply,
            ..
        }
    ));
}

/// Verifies nested unary operator lowering order.
#[test]
fn lowers_unary_expression_operators() {
    let unit = parse_unit("int main(void) { return !-x; }");

    let ExternalDeclaration::Function(function) = &unit.top_level_items[0] else {
        panic!("expected function declaration");
    };
    let body = &function.body;

    let BlockItem::Statement(Statement::Return(Some(Expression::Unary { op, expr, .. }))) =
        &body.items[0]
    else {
        panic!("expected unary expression in return");
    };

    assert_eq!(*op, UnaryOp::LogicalNot);
    assert!(matches!(
        **expr,
        Expression::Unary {
            op: UnaryOp::Minus,
            ..
        }
    ));
}

/// Verifies assignment expression lowering inside statements.
#[test]
fn lowers_assignment_statement() {
    let unit = parse_unit("int main(void) { x = 42; return x; }");

    let ExternalDeclaration::Function(function) = &unit.top_level_items[0] else {
        panic!("expected function declaration");
    };
    let body = &function.body;

    let BlockItem::Statement(Statement::Expression(Some(Expression::Assignment { .. }))) =
        &body.items[0]
    else {
        panic!("expected assignment expression statement");
    };
}

/// Verifies lowering of call arguments containing index expressions.
#[test]
fn lowers_call_and_index_postfix_expressions() {
    let unit = parse_unit("int main(void) { return f(a[0], b); }");

    let ExternalDeclaration::Function(function) = &unit.top_level_items[0] else {
        panic!("expected function declaration");
    };
    let body = &function.body;

    let BlockItem::Statement(Statement::Return(Some(Expression::Call { args, .. }))) =
        &body.items[0]
    else {
        panic!("expected call expression in return");
    };

    assert_eq!(args.len(), 2);
    assert!(matches!(args[0], Expression::Index { .. }));
}

/// Verifies function prototype syntax is rejected by parser.
#[test]
fn parser_rejects_function_prototype_syntax() {
    assert_parse_fails("int sum(int a, int b);");
}

/// Verifies multiple declarators in a single declaration statement.
#[test]
fn lowers_multiple_declarators_in_one_declaration() {
    let unit = parse_unit("int a, b, c;");

    let ExternalDeclaration::GlobalDeclaration(declaration) = &unit.top_level_items[0] else {
        panic!("expected declaration external declaration");
    };

    assert_eq!(declaration.declarators.len(), 3);
    assert_eq!(declaration.declarators[0].name, "a");
    assert_eq!(declaration.declarators[1].name, "b");
    assert_eq!(declaration.declarators[2].name, "c");
}

/// Verifies nested block statements are preserved in AST.
#[test]
fn lowers_nested_block_statement() {
    let unit = parse_unit("int main(void) { { return 1; } }");

    let ExternalDeclaration::Function(function) = &unit.top_level_items[0] else {
        panic!("expected function declaration");
    };
    let body = &function.body;

    let BlockItem::Statement(Statement::Block(inner_block)) = &body.items[0] else {
        panic!("expected inner block statement");
    };

    assert_eq!(inner_block.items.len(), 1);
    assert!(matches!(
        inner_block.items[0],
        BlockItem::Statement(Statement::Return(_))
    ));
}

/// Verifies `else if` lowers as an `else` branch containing another `if`.
#[test]
fn lowers_else_if_chain_shape() {
    let unit =
        parse_unit("int main(void) { if (a) return 1; else if (b) return 2; else return 3; }");

    let ExternalDeclaration::Function(function) = &unit.top_level_items[0] else {
        panic!("expected function declaration");
    };
    let body = &function.body;

    let BlockItem::Statement(Statement::If { else_branch, .. }) = &body.items[0] else {
        panic!("expected top-level if statement");
    };

    let Some(else_statement) = else_branch else {
        panic!("expected else branch");
    };

    assert!(matches!(**else_statement, Statement::If { .. }));
}

/// Verifies assignment is right-associative (`a = (b = 1)`).
#[test]
fn lowers_right_associative_assignment() {
    let unit = parse_unit("int main(void) { a = b = 1; }");

    let ExternalDeclaration::Function(function) = &unit.top_level_items[0] else {
        panic!("expected function declaration");
    };
    let body = &function.body;

    let BlockItem::Statement(Statement::Expression(Some(Expression::Assignment {
        value, ..
    }))) = &body.items[0]
    else {
        panic!("expected outer assignment");
    };

    assert!(matches!(**value, Expression::Assignment { .. }));
}

/// Verifies relational/equality operator precedence (`<` before `==`).
#[test]
fn lowers_relational_before_equality() {
    let unit = parse_unit("int main(void) { return a < b == c; }");

    let ExternalDeclaration::Function(function) = &unit.top_level_items[0] else {
        panic!("expected function declaration");
    };
    let body = &function.body;

    let BlockItem::Statement(Statement::Return(Some(Expression::Binary { op, lhs, .. }))) =
        &body.items[0]
    else {
        panic!("expected binary return expression");
    };

    assert_eq!(*op, BinaryOp::Equal);
    assert!(matches!(
        **lhs,
        Expression::Binary {
            op: BinaryOp::Less,
            ..
        }
    ));
}

/// Verifies logical-and has higher precedence than logical-or.
#[test]
fn lowers_logical_and_before_or() {
    let unit = parse_unit("int main(void) { return 1 || 0 && 0; }");

    let ExternalDeclaration::Function(function) = &unit.top_level_items[0] else {
        panic!("expected function declaration");
    };
    let body = &function.body;

    let BlockItem::Statement(Statement::Return(Some(Expression::Binary {
        op, lhs, rhs, ..
    }))) = &body.items[0]
    else {
        panic!("expected binary return expression");
    };

    assert_eq!(*op, BinaryOp::LogicalOr, "top-level should be LogicalOr");
    let lhs_inner = &**lhs;
    assert!(
        matches!(lhs_inner, Expression::IntegerLiteral { value: 1, .. }),
        "lhs should be 1"
    );
    let rhs_inner = &**rhs;
    assert!(
        matches!(rhs_inner, Expression::Binary { .. }),
        "rhs should be a Binary expression (the && part)"
    );
}

/// Verifies declaration initializers are lowered as assignment expressions.
#[test]
fn lowers_declaration_initializer_expression() {
    let unit = parse_unit("int x = 5 + 7;");

    let ExternalDeclaration::GlobalDeclaration(declaration) = &unit.top_level_items[0] else {
        panic!("expected declaration external declaration");
    };

    let Some(initializer) = &declaration.declarators[0].initializer else {
        panic!("expected initializer");
    };

    assert!(matches!(
        initializer,
        Expression::Binary {
            op: BinaryOp::Add,
            ..
        }
    ));
}

/// Verifies empty statements inside a block lower correctly.
#[test]
fn lowers_empty_expression_statement() {
    let unit = parse_unit("int main(void) { ; return 0; }");

    let ExternalDeclaration::Function(function) = &unit.top_level_items[0] else {
        panic!("expected function declaration");
    };
    let body = &function.body;

    let BlockItem::Statement(Statement::Expression(None)) = &body.items[0] else {
        panic!("expected empty expression statement");
    };
}

/// Verifies division operator is accepted by parser (rejected by target validation).
#[test]
fn parses_division_operator() {
    assert_parse_succeeds("int main(void) { return 10 / 2; }");
}

/// Verifies division with variables parse.
#[test]
fn parses_division_variables() {
    assert_parse_succeeds("int main(void) { return a / b; }");
}

/// Verifies division with expressions parse.
#[test]
fn parses_division_expressions() {
    assert_parse_succeeds("int main(void) { return (a + b) / c; }");
}

/// Verifies bitwise operators parse (caught by target validation).
#[test]
fn parses_bitwise_operators() {
    assert_parse_succeeds("int main(void) { return a & b; }");
    assert_parse_succeeds("int main(void) { return a | b; }");
    assert_parse_succeeds("int main(void) { return a ^ b; }");
}

/// Verifies bitwise operators with compound expressions parse.
#[test]
fn parses_bitwise_operators_compound() {
    assert_parse_succeeds("int main(void) { return (a & b) | c; }");
    assert_parse_succeeds("int main(void) { return a ^ (b & c); }");
}

/// Verifies bitwise operators with other operators parse.
#[test]
fn parses_bitwise_operators_mixed() {
    assert_parse_succeeds("int main(void) { return a + b & c; }");
    assert_parse_succeeds("int main(void) { return a | b == c; }");
}

/// Verifies shift operators parse (caught by target validation).
#[test]
fn parses_shift_operators() {
    assert_parse_succeeds("int main(void) { return a << 2; }");
    assert_parse_succeeds("int main(void) { return a >> 2; }");
}

/// Verifies shift operators with constants parse.
#[test]
fn parses_shift_operators_constants() {
    assert_parse_succeeds("int main(void) { return 1 << 3; }");
    assert_parse_succeeds("int main(void) { return 8 >> 2; }");
}

/// Verifies shift operators with expressions parse.
#[test]
fn parses_shift_operators_expressions() {
    assert_parse_succeeds("int main(void) { return (a + b) << c; }");
    assert_parse_succeeds("int main(void) { return a >> (b + 1); }");
}

/// Verifies loop statements now parse (caught by target validation).
#[test]
fn parses_loop_statements() {
    assert_parse_succeeds("int main(void) { while (1) return 0; }");
    assert_parse_succeeds("int main(void) { for (;;) return 0; }");
}

/// Verifies while loop with condition parse.
#[test]
fn parses_while_loop_with_condition() {
    assert_parse_succeeds("int main(void) { while (x < 10) x = x + 1; }");
    assert_parse_succeeds("int main(void) { while (1) { } }");
}

/// Verifies for loop with all parts parse.
#[test]
fn parses_for_loop_parts() {
    assert_parse_succeeds("int main(void) { for (i = 0; i < 10; i = i + 1) { } }");
    assert_parse_succeeds("int main(void) { for (;;) break; }");
}

/// Verifies `static` storage class parses but is caught by target validation.
#[test]
fn parses_static_storage_class() {
    assert_parse_succeeds("static int counter;");
}

/// Verifies static with initialization parses.
#[test]
fn parses_static_with_initializer() {
    assert_parse_succeeds("static int x = 5;");
    assert_parse_succeeds("static int arr[3];");
}

/// Verifies static in function parse.
#[test]
fn parses_static_in_function() {
    assert_parse_succeeds("int main(void) { static int x; return x; }");
}

/// Verifies malformed declarations fail parsing.
#[test]
fn rejects_malformed_declarations() {
    assert_parse_fails("int x[;");
    assert_parse_fails("int main(void) { int x = ; }");
}

/// Verifies malformed control-flow syntax fails parsing.
#[test]
fn rejects_malformed_if_syntax() {
    assert_parse_fails("int main(void) { if (1 return 0; }");
    assert_parse_fails("int main(void) { if 1) return 0; }");
}

/// Verifies `void`-only parameter list remains accepted.
#[test]
fn accepts_void_parameter_marker() {
    let unit = parse_unit("int main(void) { return 0; }");
    assert_eq!(unit.top_level_items.len(), 1);
}

/// Verifies missing semicolon is rejected.
#[test]
fn rejects_missing_semicolon_after_return() {
    assert_parse_fails("int main(void) { return 1 }");
}

/// Verifies inline asm statement parses and extracts instructions.
#[test]
fn parses_inline_asm_statement() {
    let unit = parse_unit("int main(void) { __asm(\"Load x\"); return 0; }");

    let ExternalDeclaration::Function(function) = &unit.top_level_items[0] else {
        panic!("expected function declaration");
    };
    let body = &function.body;

    let BlockItem::Statement(Statement::InlineAsm(instructions)) = &body.items[0] else {
        panic!("expected inline asm statement");
    };

    assert_eq!(instructions.len(), 1);
    assert_eq!(instructions[0], "Load x");
}

/// Verifies inline asm with multiple string arguments.
#[test]
fn parses_inline_asm_multiple_strings() {
    let unit = parse_unit("int main(void) { __asm(\"Load x\", \"Add y\"); return 0; }");

    let ExternalDeclaration::Function(function) = &unit.top_level_items[0] else {
        panic!("expected function declaration");
    };
    let body = &function.body;

    let BlockItem::Statement(Statement::InlineAsm(instructions)) = &body.items[0] else {
        panic!("expected inline asm statement");
    };

    assert_eq!(instructions.len(), 2);
    assert_eq!(instructions[0], "Load x");
    assert_eq!(instructions[1], "Add y");
}

/// Verifies inline asm escape sequences are unescaped.
#[test]
fn parses_inline_asm_escape_sequences() {
    let unit = parse_unit("int main(void) { __asm(\"Line1\\nLine2\"); return 0; }");

    let ExternalDeclaration::Function(function) = &unit.top_level_items[0] else {
        panic!("expected function declaration");
    };
    let body = &function.body;

    let BlockItem::Statement(Statement::InlineAsm(instructions)) = &body.items[0] else {
        panic!("expected inline asm statement");
    };

    assert_eq!(instructions.len(), 1);
    assert_eq!(instructions[0], "Line1\nLine2");
}

/// Verifies inline asm with tab escape sequence.
#[test]
fn parses_inline_asm_tab_escape() {
    let unit = parse_unit("int main(void) { __asm(\"Col1\\tCol2\"); return 0; }");

    let ExternalDeclaration::Function(function) = &unit.top_level_items[0] else {
        panic!("expected function declaration");
    };
    let body = &function.body;

    let BlockItem::Statement(Statement::InlineAsm(instructions)) = &body.items[0] else {
        panic!("expected inline asm statement");
    };

    assert_eq!(instructions.len(), 1);
    assert_eq!(instructions[0], "Col1\tCol2");
}

/// Verifies inline asm with backslash escape.
#[test]
fn parses_inline_asm_backslash_escape() {
    let unit = parse_unit("int main(void) { __asm(\"path\\\\to\\\\file\"); return 0; }");

    let ExternalDeclaration::Function(function) = &unit.top_level_items[0] else {
        panic!("expected function declaration");
    };
    let body = &function.body;

    let BlockItem::Statement(Statement::InlineAsm(instructions)) = &body.items[0] else {
        panic!("expected inline asm statement");
    };

    assert_eq!(instructions.len(), 1);
    assert_eq!(instructions[0], "path\\to\\file");
}

/// Verifies inline asm with quote escape.
#[test]
fn parses_inline_asm_quote_escape() {
    let unit = parse_unit("int main(void) { __asm(\"say \\\"hello\\\"\"); return 0; }");

    let ExternalDeclaration::Function(function) = &unit.top_level_items[0] else {
        panic!("expected function declaration");
    };
    let body = &function.body;

    let BlockItem::Statement(Statement::InlineAsm(instructions)) = &body.items[0] else {
        panic!("expected inline asm statement");
    };

    assert_eq!(instructions.len(), 1);
    assert_eq!(instructions[0], "say \"hello\"");
}

/// Verifies malformed inline asm is rejected - missing closing paren.
#[test]
fn rejects_inline_asm_missing_paren() {
    assert_parse_fails("int main(void) { __asm(\"Load x\"; return 0; }");
}

/// Verifies inline asm without semicolon is rejected.
#[test]
fn rejects_inline_asm_no_semicolon() {
    assert_parse_fails("int main(void) { __asm(\"Load x\") return 0; }");
}

/// Verifies inline asm with empty string parses.
#[test]
fn parses_inline_asm_empty_string() {
    let unit = parse_unit("int main(void) { __asm(\"\"); return 0; }");

    let ExternalDeclaration::Function(function) = &unit.top_level_items[0] else {
        panic!("expected function declaration");
    };
    let body = &function.body;

    let BlockItem::Statement(Statement::InlineAsm(instructions)) = &body.items[0] else {
        panic!("expected inline asm statement");
    };

    assert_eq!(instructions.len(), 1);
    assert_eq!(instructions[0], "");
}

/// Verifies array initializer parses with multiple elements.
#[test]
fn parses_array_initializer_multiple_elements() {
    let unit = parse_unit("int arr[3] = { 1, 2, 3 };");

    let ExternalDeclaration::GlobalDeclaration(declaration) = &unit.top_level_items[0] else {
        panic!("expected global declaration");
    };

    let Some(initializer) = &declaration.declarators[0].initializer else {
        panic!("expected initializer");
    };

    assert!(matches!(
        initializer,
        Expression::ArrayInitializer { elements, .. } if elements.len() == 3
    ));
}

/// Verifies array initializer with single element parses.
#[test]
fn parses_array_initializer_single_element() {
    let unit = parse_unit("int arr[1] = { 42 };");

    let ExternalDeclaration::GlobalDeclaration(declaration) = &unit.top_level_items[0] else {
        panic!("expected global declaration");
    };

    let Some(initializer) = &declaration.declarators[0].initializer else {
        panic!("expected initializer");
    };

    assert!(matches!(
        initializer,
        Expression::ArrayInitializer { elements, .. } if elements.len() == 1
    ));
}

/// Verifies array initializer in local variable declaration.
#[test]
fn parses_array_initializer_local_variable() {
    let unit = parse_unit("int main(void) { int arr[2] = { 5, 10 }; return 0; }");

    let ExternalDeclaration::Function(function) = &unit.top_level_items[0] else {
        panic!("expected function declaration");
    };

    let BlockItem::Declaration(declaration) = &function.body.items[0] else {
        panic!("expected declaration");
    };

    let Some(initializer) = &declaration.declarators[0].initializer else {
        panic!("expected initializer");
    };

    assert!(matches!(initializer, Expression::ArrayInitializer { .. }));
}

/// Verifies regular scalar initializer still works.
#[test]
fn parses_scalar_initializer_still_works() {
    let unit = parse_unit("int x = 42;");

    let ExternalDeclaration::GlobalDeclaration(declaration) = &unit.top_level_items[0] else {
        panic!("expected global declaration");
    };

    let Some(initializer) = &declaration.declarators[0].initializer else {
        panic!("expected initializer");
    };

    assert!(matches!(
        initializer,
        Expression::IntegerLiteral { value: 42, .. }
    ));
}

/// Verifies string literal initializer parses as array of char codes.
#[test]
fn parses_string_literal_initializer() {
    let unit = parse_unit("char str[6] = \"hello\";");

    let ExternalDeclaration::GlobalDeclaration(declaration) = &unit.top_level_items[0] else {
        panic!("expected global declaration");
    };

    let declarator = &declaration.declarators[0];
    assert_eq!(declarator.name, "str");

    let Some(initializer) = &declarator.initializer else {
        panic!("expected initializer");
    };

    let Expression::ArrayInitializer { elements, .. } = initializer else {
        panic!("expected array initializer");
    };

    assert_eq!(elements.len(), 6);

    if let Expression::IntegerLiteral { value, .. } = &elements[0] {
        assert_eq!(*value, 'h' as i64);
    } else {
        panic!("expected first element to be 'h'");
    }

    if let Expression::IntegerLiteral { value, .. } = &elements[4] {
        assert_eq!(*value, 'o' as i64);
    } else {
        panic!("expected fifth element to be 'o'");
    }

    if let Expression::IntegerLiteral { value, .. } = &elements[5] {
        assert_eq!(*value, 0);
    } else {
        panic!("expected sixth element to be null terminator");
    }
}

/// Verifies string literal initializer in local variable.
#[test]
fn parses_string_literal_initializer_local() {
    let unit = parse_unit("int main(void) { char msg[5] = \"test\"; return 0; }");

    let ExternalDeclaration::Function(function) = &unit.top_level_items[0] else {
        panic!("expected function declaration");
    };

    let BlockItem::Declaration(declaration) = &function.body.items[0] else {
        panic!("expected declaration");
    };

    let Some(initializer) = &declaration.declarators[0].initializer else {
        panic!("expected initializer");
    };

    assert!(
        matches!(initializer, Expression::ArrayInitializer { elements, .. } if elements.len() == 5)
    );
}

#[test]
fn parses_struct_declaration_and_member_access() {
    let unit = parse_unit("struct Point { int x; int y; } p; int main(void) { return p.x; }");

    let ExternalDeclaration::GlobalDeclaration(declaration) = &unit.top_level_items[0] else {
        panic!("expected global declaration");
    };

    let ty = &declaration.declarators[0].ty;
    assert!(
        matches!(ty, Type::Struct { name, fields } if name == "Point" && fields.len() == 2)
    );

    let ExternalDeclaration::Function(function) = &unit.top_level_items[1] else {
        panic!("expected function declaration");
    };

    let BlockItem::Statement(Statement::Return(Some(Expression::MemberAccess {
        member,
        through_pointer,
        ..
    }))) = &function.body.items[0]
    else {
        panic!("expected member access");
    };

    assert_eq!(member, "x");
    assert!(!through_pointer);
}

#[test]
fn parses_pointer_member_access_arrow() {
    let unit = parse_unit(
        "struct Point { int x; int y; } p; int main(void) { struct Point *q; q = &p; return q->y; }",
    );

    let ExternalDeclaration::Function(function) = &unit.top_level_items[1] else {
        panic!("expected function declaration");
    };

    let BlockItem::Statement(Statement::Return(Some(Expression::MemberAccess {
        member,
        through_pointer,
        ..
    }))) = &function.body.items[2]
    else {
        panic!("expected member access");
    };

    assert_eq!(member, "y");
    assert!(*through_pointer);
}

#[test]
fn parses_tag_only_struct_declaration() {
    let unit = parse_unit("struct Point { int x; int y; };");
    assert_eq!(unit.top_level_items.len(), 1);

    let ExternalDeclaration::TypeDeclaration(ty) = &unit.top_level_items[0] else {
        panic!("expected type declaration");
    };

    assert!(
        matches!(ty, Type::Struct { name, fields } if name == "Point" && fields.len() == 2)
    );
}

#[test]
fn parses_typedef_struct_alias_usage() {
    let unit = parse_unit(
        "typedef struct Point { int x; int y; } Point; Point p; int main(void) { return p.x; }",
    );

    let ExternalDeclaration::GlobalDeclaration(td) = &unit.top_level_items[0] else {
        panic!("expected typedef declaration");
    };
    assert!(matches!(td.storage_class, Some(StorageClass::Typedef)));

    let ExternalDeclaration::GlobalDeclaration(var) = &unit.top_level_items[1] else {
        panic!("expected variable declaration");
    };
    assert!(matches!(var.declarators[0].ty, Type::Alias(ref name) if name == "Point"));
}

#[test]
fn parses_struct_tag_forward_reference() {
    let unit = parse_unit("struct Point; struct Point { int x; }; struct Point p;");
    assert_eq!(unit.top_level_items.len(), 3);
}

#[test]
fn parses_pointer_to_typedef_struct() {
    let unit = parse_unit("typedef struct Point { int x; } Point; Point *p;");
    let ExternalDeclaration::GlobalDeclaration(var) = &unit.top_level_items[1] else {
        panic!("expected variable declaration");
    };
    assert!(matches!(var.declarators[0].ty, Type::Pointer(_)));
}

#[test]
fn parses_array_of_typedef_struct() {
    let unit = parse_unit("typedef struct Point { int x; } Point; Point arr[3];");
    let ExternalDeclaration::GlobalDeclaration(var) = &unit.top_level_items[1] else {
        panic!("expected variable declaration");
    };
    assert!(matches!(var.declarators[0].ty, Type::Array { .. }));
}

#[test]
fn parses_struct_with_pointer_member() {
    let unit = parse_unit("struct Node { int value; struct Node *next; } n;");
    let ExternalDeclaration::GlobalDeclaration(var) = &unit.top_level_items[0] else {
        panic!("expected global declaration");
    };
    let Type::Struct { fields, .. } = &var.declarators[0].ty else {
        panic!("expected struct type");
    };
    assert_eq!(fields.len(), 2);
    assert!(matches!(fields[1].ty, Type::Pointer(_)));
}

#[test]
fn parses_enum_definition_with_values() {
    let unit = parse_unit("enum Color { RED, GREEN = 3, BLUE };");
    let ExternalDeclaration::TypeDeclaration(Type::Enum { name, enumerators }) = &unit.top_level_items[0] else {
        panic!("expected enum type declaration");
    };
    assert_eq!(name, "Color");
    let values: Vec<(String, i64)> = enumerators.iter().map(|e| (e.name.clone(), e.value)).collect();
    assert_eq!(values, vec![("RED".to_string(), 0), ("GREEN".to_string(), 3), ("BLUE".to_string(), 4)]);
}

#[test]
fn rejects_malformed_enumerators() {
    let error = marie_c_compiler::parser::CParser::new().parse_translation_unit("enum Color { RED GREEN };").expect_err("missing comma");
    assert!(error.to_display_string().contains("expected ',' or '}' after enumerator"));
    let error = marie_c_compiler::parser::CParser::new().parse_translation_unit("enum Color { RED = x };").expect_err("non-constant value");
    assert!(error.to_display_string().contains("expected enumerator value"));
}
