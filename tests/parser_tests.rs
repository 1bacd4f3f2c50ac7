use plp_2025::ast::{
    BinaryOperator, Command, ConcreteValue, Declaration, Expression, IOCommand, ProcedureParameter,
    Type, UnaryOperator, Value,
};
use plp_2025::parser::{
    parse_binary_operator, parse_bool, parse_command, parse_concrete_value, parse_declaration,
    parse_expression, parse_expression_atomic, parse_identifier, parse_int,
    parse_procedure_declaration, parse_procedure_parameter, parse_procedure_parameters,
    parse_string, parse_unary_expression, parse_unary_operator, ws,
};

fn int_lit(n: i64) -> Expression {
    Expression::ConcreteValue(ConcreteValue::Value(Value::Int(n)))
}

fn ident(x: &str) -> Expression {
    Expression::Identifier(x.to_string())
}

#[test]
fn test_single_declaration() {
    assert_eq!(
        parse_declaration("var x = 42"),
        Ok(("", Declaration::Variable("x".to_string(), int_lit(42), false)))
    );
}

#[test]
fn test_multiple_declarations() {
    // Declarations of one list are separated by commas; `;` ends the list.
    assert_eq!(
        parse_declaration("var a = 5; var b = 10"),
        Ok(("; var b = 10", Declaration::Variable("a".to_string(), int_lit(5), false)))
    );
}

#[test]
fn test_whitespace_variations() {
    assert!(parse_declaration("var\nx\t=\t7;var y= \"text\"").is_ok());
}

#[test]
fn test_invalid_declaration() {
    assert!(parse_declaration("var = 5").is_err());
}

#[test]
fn test_procedure_parameter_declaration_int() {
    assert_eq!(
        parse_procedure_parameter("int brun0"),
        Ok(("", ProcedureParameter { identifier: "brun0".to_string(), type_: Type::Int }))
    );
}

#[test]
fn test_procedure_parameter_declaration_string() {
    assert_eq!(
        parse_procedure_parameter("string g10v4nn4"),
        Ok(("", ProcedureParameter { identifier: "g10v4nn4".to_string(), type_: Type::Str }))
    );
}

#[test]
fn test_procedure_parameter_declaration_bool() {
    assert_eq!(
        parse_procedure_parameter("bool h31t0r"),
        Ok(("", ProcedureParameter { identifier: "h31t0r".to_string(), type_: Type::Bool }))
    );
}

#[test]
fn test_procedure_parameter_declaration_with_multiple_parameters() {
    assert_eq!(
        parse_procedure_parameters("int a, string b, bool c"),
        Ok((
            "",
            vec![
                ProcedureParameter { identifier: "a".to_string(), type_: Type::Int },
                ProcedureParameter { identifier: "b".to_string(), type_: Type::Str },
                ProcedureParameter { identifier: "c".to_string(), type_: Type::Bool },
            ]
        ))
    );
}

#[test]
fn test_procedure_parameter_declaration_with_a_single_parameter() {
    assert_eq!(
        parse_procedure_parameters("int askfbjkasf329842308g3u210g"),
        Ok((
            "",
            vec![ProcedureParameter {
                identifier: "askfbjkasf329842308g3u210g".to_string(),
                type_: Type::Int
            }]
        ))
    );
}

#[test]
fn test_procedure_declaration() {
    assert_eq!(
        parse_procedure_declaration("proc test(int a) { write(a) }"),
        Ok((
            "",
            Declaration::Procedure(
                "test".to_string(),
                vec![ProcedureParameter { identifier: "a".to_string(), type_: Type::Int }],
                None,
                Box::new(Command::IO(IOCommand::Write(Box::new(ident("a")))))
            )
        ))
    );
}

#[test]
fn test_parse_concrete_int() {
    assert_eq!(parse_concrete_value("42"), Ok(("", int_lit(42))));
}

#[test]
fn test_parse_concrete_bool() {
    assert_eq!(
        parse_concrete_value("true"),
        Ok(("", Expression::ConcreteValue(ConcreteValue::Value(Value::Bool(true)))))
    );
}

#[test]
fn test_parse_concrete_string() {
    assert_eq!(
        parse_concrete_value("\"hello\""),
        Ok(("", Expression::ConcreteValue(ConcreteValue::Value(Value::Str("hello".to_string())))))
    );
}

#[test]
fn test_parse_atomic_identifier() {
    assert_eq!(parse_expression_atomic("var_name"), Ok(("", ident("var_name"))));
}

#[test]
fn test_parse_atomic_mixed_whitespace() {
    assert_eq!(parse_expression_atomic("\n\t123 \t"), Ok(("", int_lit(123))));
}

#[test]
fn expression_parsers_tests_test_parse_unary_neg() {
    assert_eq!(
        parse_unary_expression("-15"),
        Ok(("", Expression::UnaryExp(UnaryOperator::Neg, Box::new(int_lit(15)))))
    );
}

#[test]
fn expression_parsers_tests_test_parse_unary_not() {
    assert_eq!(
        parse_unary_expression("not true"),
        Ok((
            "",
            Expression::UnaryExp(
                UnaryOperator::Not,
                Box::new(Expression::ConcreteValue(ConcreteValue::Value(Value::Bool(true))))
            )
        ))
    );
}

#[test]
fn expression_parsers_tests_test_parse_unary_length() {
    assert_eq!(
        parse_unary_expression("length \"test\""),
        Ok((
            "",
            Expression::UnaryExp(
                UnaryOperator::Length,
                Box::new(Expression::ConcreteValue(ConcreteValue::Value(Value::Str(
                    "test".to_string()
                ))))
            )
        ))
    );
}

#[test]
fn expression_parsers_tests_test_parse_binary_add() {
    assert_eq!(
        parse_expression("10 + 20"),
        Ok(("", Expression::BinaryExp(BinaryOperator::Add, Box::new(int_lit(10)), Box::new(int_lit(20)))))
    );
}

#[test]
fn expression_parsers_tests_test_parse_binary_concat() {
    let s = |t: &str| Expression::ConcreteValue(ConcreteValue::Value(Value::Str(t.to_string())));
    assert_eq!(
        parse_expression("\"foo\" ++ \"bar\""),
        Ok(("", Expression::BinaryExp(BinaryOperator::Concat, Box::new(s("foo")), Box::new(s("bar")))))
    );
}

#[test]
fn test_parse_binary_complex_operands() {
    assert_eq!(
        parse_expression("x and y"),
        Ok(("", Expression::BinaryExp(BinaryOperator::And, Box::new(ident("x")), Box::new(ident("y")))))
    );
}

#[test]
fn test_parse_expression_unary() {
    assert_eq!(
        parse_expression("not false"),
        Ok((
            "",
            Expression::UnaryExp(
                UnaryOperator::Not,
                Box::new(Expression::ConcreteValue(ConcreteValue::Value(Value::Bool(false))))
            )
        ))
    );
}

#[test]
fn test_parse_expression_nested_binary() {
    assert_eq!(
        parse_expression("5 + 10 == 15"),
        Ok((
            "",
            Expression::BinaryExp(
                BinaryOperator::Equal,
                Box::new(Expression::BinaryExp(BinaryOperator::Add, Box::new(int_lit(5)), Box::new(int_lit(10)))),
                Box::new(int_lit(15))
            )
        ))
    );
}

#[test]
fn test_parse_expression_invalid() {
    assert!(parse_expression("123 +").is_err());
}

#[test]
fn test_ws() {
    assert_eq!(ws("  let x = 5;"), Ok(("let x = 5;", "  ")));
    assert_eq!(ws("  \t \t"), Ok(("", "  \t \t")));
}

#[test]
fn test_identifier() {
    assert_eq!(parse_identifier("x"), Ok(("", "x".to_string())));
    assert_eq!(parse_identifier("var1"), Ok(("", "var1".to_string())));
    assert_eq!(parse_identifier("_temp"), Ok(("", "_temp".to_string())));
    assert!(parse_identifier("123").is_err());
}

#[test]
fn operators_parsers_tests_test_parse_binary_add() {
    assert_eq!(parse_binary_operator("+"), Ok(("", BinaryOperator::Add)));
}

#[test]
fn test_parse_binary_add_with_whitespace() {
    assert_eq!(parse_binary_operator("  +  "), Ok(("", BinaryOperator::Add)));
}

#[test]
fn test_parse_binary_sub() {
    assert_eq!(parse_binary_operator("-"), Ok(("", BinaryOperator::Sub)));
}

#[test]
fn test_parse_binary_and() {
    assert_eq!(parse_binary_operator("and"), Ok(("", BinaryOperator::And)));
}

#[test]
fn test_parse_binary_and_with_remaining() {
    assert_eq!(parse_binary_operator("andxyz"), Ok(("xyz", BinaryOperator::And)));
}

#[test]
fn test_parse_binary_or() {
    assert_eq!(parse_binary_operator("or"), Ok(("", BinaryOperator::Or)));
}

#[test]
fn operators_parsers_tests_test_parse_binary_concat() {
    assert_eq!(parse_binary_operator("++"), Ok(("", BinaryOperator::Concat)));
}

#[test]
fn test_parse_binary_equal() {
    assert_eq!(parse_binary_operator("=="), Ok(("", BinaryOperator::Equal)));
}

#[test]
fn test_parse_binary_invalid_operator() {
    assert!(parse_binary_operator("&").is_err());
}

#[test]
fn operators_parsers_tests_test_parse_unary_neg() {
    assert_eq!(parse_unary_operator("-"), Ok(("", UnaryOperator::Neg)));
}

#[test]
fn test_parse_unary_neg_with_whitespace() {
    assert_eq!(parse_unary_operator("\t-\n"), Ok(("", UnaryOperator::Neg)));
}

#[test]
fn operators_parsers_tests_test_parse_unary_not() {
    assert_eq!(parse_unary_operator("not"), Ok(("", UnaryOperator::Not)));
}

#[test]
fn test_parse_unary_not_with_remaining() {
    assert_eq!(parse_unary_operator("not123"), Ok(("123", UnaryOperator::Not)));
}

#[test]
fn operators_parsers_tests_test_parse_unary_length() {
    assert_eq!(parse_unary_operator("length"), Ok(("", UnaryOperator::Length)));
}

#[test]
fn test_parse_unary_length_with_whitespace() {
    assert_eq!(parse_unary_operator("  length  "), Ok(("", UnaryOperator::Length)));
}

#[test]
fn test_parse_unary_invalid_operator() {
    assert!(parse_unary_operator("neg").is_err());
}

#[test]
fn test_parse_unary_partial_match() {
    assert!(parse_unary_operator("no").is_err());
}

#[test]
fn test_assignment() {
    assert_eq!(parse_command("x := 42"), Ok(("", Command::Assignment("x".into(), int_lit(42), false))));
}

#[test]
fn test_assignment_complex() {
    assert_eq!(
        parse_command("x := x + 42"),
        Ok((
            "",
            Command::Assignment(
                "x".into(),
                Expression::BinaryExp(BinaryOperator::Add, Box::new(ident("x")), Box::new(int_lit(42))),
                false
            )
        ))
    );
}

#[test]
fn test_declaration_block() {
    assert!(parse_command("{ var x = 5; var y = 10 }").is_ok());
}

#[test]
fn test_while_loop() {
    let expected = Command::WhileLoop(
        Expression::BinaryExp(BinaryOperator::Equal, Box::new(ident("x")), Box::new(int_lit(0))),
        Box::new(Command::Assignment(
            "x".to_string(),
            Expression::BinaryExp(BinaryOperator::Add, Box::new(ident("x")), Box::new(int_lit(1))),
            false,
        )),
    );
    assert_eq!(parse_command("while x == 0 do x := x + 1"), Ok(("", expected)));
}

#[test]
fn test_if_else() {
    let expected = Command::IfElse(
        ident("x"),
        Box::new(Command::Assignment("y".into(), int_lit(1), false)),
        Box::new(Command::Assignment("z".into(), int_lit(2), false)),
    );
    assert_eq!(parse_command("if x then y := 1 else z := 2"), Ok(("", expected)));
}

#[test]
fn test_io_write() {
    assert_eq!(
        parse_command("write(42)"),
        Ok(("", Command::IO(IOCommand::Write(Box::new(int_lit(42))))))
    );
}

#[test]
fn test_sequence() {
    let expected = Command::Sequence(
        Box::new(Command::Assignment("x".into(), int_lit(5), false)),
        Box::new(Command::Assignment("y".into(), int_lit(10), false)),
    );
    assert_eq!(parse_command("x := 5; y := 10"), Ok(("", expected)));
}

#[test]
fn test_parse_bool_true() {
    assert_eq!(parse_bool("true"), Ok(("", ConcreteValue::Value(Value::Bool(true)))));
}

#[test]
fn test_parse_bool_false() {
    assert_eq!(parse_bool("false"), Ok(("", ConcreteValue::Value(Value::Bool(false)))));
}

#[test]
fn test_parse_string() {
    assert_eq!(
        parse_string("\"teste de string\" 1233"),
        Ok((" 1233", ConcreteValue::Value(Value::Str("teste de string".to_string()))))
    );
}

#[test]
fn concret_value_parsers_tests_test_parse_int_valid() {
    assert_eq!(parse_int("12345"), Ok(("", ConcreteValue::Value(Value::Int(12345)))));
}

#[test]
fn concret_value_parsers_tests_test_parse_int_with_remaining() {
    assert_eq!(parse_int("123abc"), Ok(("abc", ConcreteValue::Value(Value::Int(123)))));
}

#[test]
fn concret_value_parsers_tests_test_parse_int_invalid() {
    assert!(parse_int("abc").is_err());
}

#[test]
fn tests_parsers_concret_values_test_parse_int_valid() {
    assert_eq!(parse_int("12345"), Ok(("", ConcreteValue::Value(Value::Int(12345)))));
}

#[test]
fn tests_parsers_concret_values_test_parse_int_with_remaining() {
    assert_eq!(parse_int("123abc"), Ok(("abc", ConcreteValue::Value(Value::Int(123)))));
}

#[test]
fn tests_parsers_concret_values_test_parse_int_invalid() {
    assert!(parse_int("abc").is_err());
}
