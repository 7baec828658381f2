use marie_c_compiler::ast::{
    BinaryOp, Block, BlockItem, BuiltinType, ConstExpr, Expression, ExternalDeclaration, FunctionDeclaration,
    Parameter, Statement, TranslationUnit, Type,
};

#[test]
fn translation_unit_starts_empty() {
    let unit = TranslationUnit::default();
    assert!(unit.top_level_items.is_empty());
}

#[test]
fn builds_function_definition_shape() {
    let function = FunctionDeclaration {
        name: "main".to_string(),
        return_type: Type::Builtin(BuiltinType::Int),
        params: vec![Parameter {
            name: Some("argc".to_string()),
            ty: Type::Builtin(BuiltinType::Int),
            location: None,
        }],
        body: Block {
            items: vec![BlockItem::Statement(Statement::Return(Some(
                Expression::IntegerLiteral {
                    value: 0,
                    location: None,
                },
            )))],
        },
    };

    let unit = TranslationUnit {
        top_level_items: vec![ExternalDeclaration::Function(function.clone())],
    };

    assert_eq!(unit.top_level_items.len(), 1);
    let ExternalDeclaration::Function(found) = &unit.top_level_items[0] else {
        panic!("expected function external declaration");
    };

    assert_eq!(found.name, "main");
    assert_eq!(found.return_type, Type::Builtin(BuiltinType::Int));
    assert_eq!(found.params.len(), 1);
    assert_eq!(found.body.items.len(), 1);
}

#[test]
fn supports_pointer_and_array_types() {
    let pointer = Type::Pointer(Box::new(Type::Builtin(BuiltinType::Char)));
    let array = Type::Array {
        element: Box::new(Type::Builtin(BuiltinType::Int)),
        size: Some(ConstExpr { value: 16 }),
    };

    assert!(matches!(pointer, Type::Pointer(_)));
    assert!(matches!(array, Type::Array { .. }));
}

#[test]
fn builds_binary_expression_node() {
    let expr = Expression::Binary {
        op: BinaryOp::Add,
        lhs: Box::new(Expression::Identifier {
            name: "a".to_string(),
            location: None,
        }),
        rhs: Box::new(Expression::Identifier {
            name: "b".to_string(),
            location: None,
        }),
        location: None,
    };

    let Expression::Binary { op, .. } = expr else {
        panic!("expected binary expression");
    };

    assert_eq!(op, BinaryOp::Add);
}

#[test]
fn pretty_print_contains_core_nodes() {
    let function = FunctionDeclaration {
        name: "main".to_string(),
        return_type: Type::Builtin(BuiltinType::Int),
        params: vec![Parameter {
            name: None,
            ty: Type::Builtin(BuiltinType::Void),
            location: None,
        }],
        body: Block {
            items: vec![BlockItem::Statement(Statement::Return(Some(
                Expression::IntegerLiteral {
                    value: 0,
                    location: None,
                },
            )))],
        },
    };

    let unit = TranslationUnit {
        top_level_items: vec![ExternalDeclaration::Function(function)],
    };

    let tree = unit.pretty_print();
    assert!(tree.contains("(TranslationUnit"));
    assert!(tree.contains("(Function main"));
    assert!(tree.contains("(Return"));
    assert!(tree.contains("(IntegerLiteral 0)"));
}
