use plp_2025::ast::{
    BinaryOperator, CallProcedure, Command, ConcreteValue, Declaration, Expression, IOCommand,
    Program, Type, Value,
};
use plp_2025::environment::{BindingError, Environment, VariableInfo};
use plp_2025::executor::{Executor, Halt};
use plp_2025::grammar::Construct;
use plp_2025::parser::{parse, parse_expression};
use plp_2025::semantic::SemanticAnalyzer;

fn int_lit(n: i64) -> Expression {
    Expression::ConcreteValue(ConcreteValue::Value(Value::Int(n)))
}

fn analyze(src: &str) -> Result<(), Vec<String>> {
    let program = parse(src).expect("the program parses");
    let mut analyzer = SemanticAnalyzer::new();
    analyzer.check_program(&program)
}

fn run(src: &str, input: Vec<String>) -> (Result<(), Vec<String>>, Vec<String>) {
    let program = parse(src).expect("the program parses");
    let mut executor = Executor::with_input(input);
    let result = executor.execute_program(&program);
    (result, executor.output.clone())
}

fn has_error(result: &Result<(), Vec<String>>, text: &str) -> bool {
    match result {
        Ok(()) => false,
        Err(errors) => errors.iter().any(|e| e.contains(text)),
    }
}

#[test]
fn whole_text_is_consumed() {
    assert!(parse("  x := 1; write(x)  \n").is_ok());
    assert!(parse("{ var a = 1; write(a) }").is_ok());
}

#[test]
fn trailing_text_is_rejected() {
    let err = parse("skip skip").unwrap_err();
    assert_eq!(err.construct, Construct::EndOfInput);
    assert_eq!(err.position, 5);
}

#[test]
fn syntax_error_is_reported() {
    assert!(parse("x := ").is_err());
    assert!(parse("").is_err());
}

#[test]
fn addition_binds_tighter_than_equality() {
    assert_eq!(
        parse_expression("5 + 10 == 15"),
        Ok((
            "",
            Expression::BinaryExp(
                BinaryOperator::Equal,
                Box::new(Expression::BinaryExp(BinaryOperator::Add, Box::new(int_lit(5)), Box::new(int_lit(10)))),
                Box::new(int_lit(15))
            )
        ))
    );
}

#[test]
fn addition_is_left_associative() {
    assert_eq!(
        parse_expression("1 + 2 + 3"),
        Ok((
            "",
            Expression::BinaryExp(
                BinaryOperator::Add,
                Box::new(Expression::BinaryExp(BinaryOperator::Add, Box::new(int_lit(1)), Box::new(int_lit(2)))),
                Box::new(int_lit(3))
            )
        ))
    );
}

#[test]
fn concat_binds_tighter_than_addition_and_or_loosest() {
    let parsed = parse_expression("a or b and c").unwrap().1;
    match parsed {
        Expression::BinaryExp(BinaryOperator::Or, _, right) => {
            assert!(matches!(*right, Expression::BinaryExp(BinaryOperator::And, _, _)));
        },
        _ => panic!("expected `or` at the top"),
    }
}

#[test]
fn moved_variable_cannot_be_read() {
    let result = analyze("{ var a = 5; var b = move a; write(a) }");
    assert!(has_error(&result, "movida"));
    assert!(analyze("{ var a = 5; var b = move a; write(b) }").is_ok());
}

#[test]
fn redeclaration_in_one_scope_fails() {
    let result = analyze("{ var a = 1, var a = 2; skip }");
    assert!(has_error(&result, "já declarada"));
    assert!(analyze("{ var a = 1; { var a = 2; skip } }").is_ok());
}

#[test]
fn bindings_do_not_escape_their_block() {
    let result = analyze("{ { var a = 1; skip }; write(a) }");
    assert!(has_error(&result, "não declarada: a"));
    let (run_result, output) = run("{ { var a = 1; skip }; write(a) }", vec![]);
    assert!(has_error(&run_result, "não definida: a"));
    assert!(output.is_empty());
}

#[test]
fn call_moves_identifier_arguments() {
    let result = analyze("{ proc p(int x) { write(x) }, var a = 5; call p(a); write(a) }");
    assert!(has_error(&result, "movida: a"));
    assert!(analyze("{ proc p(int x) { write(x) }, var a = 5; call p(a) }").is_ok());
}

#[test]
fn write_prints_values() {
    let (result, output) = run("write(2 + 3); write(\"a\" ++ \"b\"); write(length \"abc\")", vec![]);
    assert_eq!(result, Ok(()));
    assert_eq!(output, vec!["5".to_string(), "ab".to_string(), "3".to_string()]);
}

#[test]
fn loop_runs_to_its_condition() {
    let (result, output) = run("{ var x = 0; while x < 3 do x := x + 1; write(x) }", vec![]);
    assert_eq!(result, Ok(()));
    assert_eq!(output, vec!["3".to_string()]);
}

#[test]
fn write_renders_each_kind_of_value() {
    let (_, output) = run("write(-5); write(not true); write(1 == 1); write(\"\")", vec![]);
    assert_eq!(output, vec!["-5".to_string(), "false".to_string(), "true".to_string(), "".to_string()]);
}

#[test]
fn if_else_runs_one_branch() {
    let (_, output) = run("{ var x = 4; if x <= 3 then write(1) else write(2) }", vec![]);
    assert_eq!(output, vec!["2".to_string()]);
}

#[test]
fn procedure_gets_argument_values() {
    let (result, output) = run("{ proc p(int x) { write(x + 1) }, var a = 5; call p(a) }", vec![]);
    assert_eq!(result, Ok(()));
    assert_eq!(output, vec!["6".to_string()]);
}

#[test]
fn recursive_procedure() {
    let src = "{ proc down(int n) { if 0 < n then { var m = n - 1; write(n); call down(m) } else skip }, var k = 3; call down(k) }";
    assert!(analyze(src).is_ok());
    let (result, output) = run(src, vec![]);
    assert_eq!(result, Ok(()));
    assert_eq!(output, vec!["3".to_string(), "2".to_string(), "1".to_string()]);
}

#[test]
fn read_takes_int_bool_or_text() {
    let input = vec!["42".to_string(), "true".to_string(), "hi there".to_string(), "-7".to_string()];
    let (result, output) = run("read(a); read(b); read(c); read(d); write(a + 1); write(not b); write(c); write(d)", input);
    assert_eq!(result, Ok(()));
    assert_eq!(
        output,
        vec!["43".to_string(), "false".to_string(), "hi there".to_string(), "-7".to_string()]
    );
}

#[test]
fn read_past_the_input_gives_empty_text() {
    let (_, output) = run("read(a); write(a ++ \"!\")", vec![]);
    assert_eq!(output, vec!["!".to_string()]);
}

#[test]
fn assignment_to_unknown_variable_is_reported() {
    assert!(has_error(&analyze("x := 1"), "Variável não declarada: x"));
    let (result, _) = run("x := 1", vec![]);
    assert!(has_error(&result, "Atribuição inválida"));
}

#[test]
fn move_into_unknown_variable_leaves_source_unmoved() {
    let (result, output) = run("{ var a = 1; x := move a; write(a) }", vec![]);
    assert!(has_error(&result, "Atribuição inválida, variável não declarada: x"));
    assert_eq!(output, vec!["1".to_string()]);
}

#[test]
fn unknown_procedure_call_has_unit_value() {
    let program = Program::Command(Command::DeclarationBlock(
        vec![Declaration::Variable("x".to_string(), int_lit(1), false)],
        Box::new(Command::Sequence(
            Box::new(Command::Assignment(
                "x".to_string(),
                Expression::CallProcedure(CallProcedure { id: "f".to_string(), args: vec![] }),
                false,
            )),
            Box::new(Command::IO(IOCommand::Write(Box::new(Expression::Identifier("x".to_string()))))),
        )),
    ));
    let mut executor = Executor::new();
    let result = executor.execute_program(&program);
    assert!(has_error(&result, "Procedimento não definido: f"));
    assert_eq!(executor.output, vec!["()".to_string()]);
}

#[test]
fn read_trims_the_line() {
    let input = vec![" 42 ".to_string(), "\ttrue".to_string(), "  hi  ".to_string()];
    let (result, output) = run("read(a); read(b); read(c); write(a + 1); write(not b); write(c ++ \"!\")", input);
    assert_eq!(result, Ok(()));
    assert_eq!(output, vec!["43".to_string(), "false".to_string(), "hi!".to_string()]);
}

#[test]
fn operator_entry_points_on_well_typed_operands() {
    let (_, neg) = parse_expression("-(2 + 3)").unwrap();
    let (_, cat) = parse_expression("\"a\" ++ \"b\"").unwrap();
    let mut executor = Executor::new();
    assert_eq!(executor.execute_unary_expression(&neg, 10), Ok(Value::Int(-5)));
    assert_eq!(executor.execute_binary_expression(&cat, 10), Ok(Value::Str("ab".to_string())));
}

#[test]
fn environment_refuses_moved_and_immutable_bindings() {
    let a = "a".to_string();
    let mut env = Environment::new();
    let info = VariableInfo { type_: Type::Int, moved: false, mutable: false };
    assert!(env.declare_variable(a.clone(), info));
    assert!(!env.declare_variable(a.clone(), info));
    assert_eq!(env.get_variable(&a), Ok(info));
    assert_eq!(env.set_variable(&a), Err(BindingError::Immutable));
    assert_eq!(env.move_variable(&a), Ok(info));
    assert_eq!(env.move_variable(&a), Err(BindingError::AlreadyMoved));
    assert_eq!(env.get_variable(&a), Err(BindingError::AlreadyMoved));
    assert_eq!(env.get_variable(&"b".to_string()), Err(BindingError::NotFound));
}

#[test]
fn unknown_procedure_is_reported() {
    assert!(has_error(&analyze("call nope()"), "Procedimento não declarado: nope"));
    let (result, _) = run("call nope(); write(1)", vec![]);
    assert!(has_error(&result, "Procedimento não definido: nope"));
}

#[test]
fn arithmetic_overflow_stops_the_run() {
    let (result, output) = run("write(9223372036854775807 + 1); write(2)", vec![]);
    assert!(has_error(&result, "estouro"));
    assert!(output.is_empty());
}

#[test]
fn operand_types_are_checked_at_run_time() {
    let (result, _) = run("write(1 + true)", vec![]);
    assert!(has_error(&result, "operandos"));
    let program = Program::Command(Command::WhileLoop(int_lit(1), Box::new(Command::Skip)));
    let mut executor = Executor::new();
    if let Program::Command(c) = &program {
        assert_eq!(executor.execute_command(c, 10), Err(Halt::InvalidOperands));
    }
}

#[test]
fn loops_stop_when_fuel_runs_out() {
    let program = parse("while true do skip").unwrap();
    let mut executor = Executor::new();
    if let Program::Command(c) = &program {
        assert_eq!(executor.execute_command(c, 5), Err(Halt::OutOfFuel));
    }
}

#[test]
fn analyzer_reports_each_kind_of_problem() {
    assert!(has_error(&analyze("{ var a = 1; a := true }"), "Tipo incompatível na atribuição de a: esperado Int, obtido Bool"));
    assert!(has_error(&analyze("while 1 do skip"), "Condição do while precisa ser booleana, obtido Int"));
    assert!(has_error(&analyze("if \"s\" then skip else skip"), "Condição do if precisa ser booleana, obtido Str"));
    assert!(has_error(&analyze("write(-true)"), "Tipo incompatível para -, obtido Bool"));
    assert!(has_error(&analyze("write(1 == true)"), "Tipo incompatível para ==, obtido Int e Bool"));
    assert!(has_error(&analyze("{ proc p(int x, int x) { skip }; skip }"), "Parâmetro duplicado: x"));
    assert!(has_error(&analyze("{ proc p(int x) { skip }; call p(1, 2) }"), "Número incorreto de argumentos para p: esperado 1, obtido 2"));
    assert!(has_error(&analyze("{ var a = 1; var b = move (a + 1); skip }"), "Move só pode ser aplicado a identificadores"));
    assert!(has_error(&analyze("{ var a = 1; var b = move a; var c = move a; skip }"), "Variável já foi movida: a"));
    assert!(has_error(&analyze("{ var a = 1; var b = move a; read(a) }"), "Não pode ler uma variável movida: a"));
    assert!(has_error(&analyze("{ proc p(int x) { skip }, proc p(int y) { skip }; skip }"), "Procedimento já declarado: p"));
}

#[test]
fn analyzer_collects_every_problem() {
    let result = analyze("write(x); write(y)");
    match result {
        Err(errors) => assert_eq!(errors.len(), 2),
        Ok(()) => panic!("expected problems"),
    }
}

#[test]
fn assignment_clears_moved_flag() {
    assert!(analyze("{ var a = 1; var b = move a; a := 2; write(a) }").is_ok());
    let (result, output) = run("{ var a = 1; var b = move a; a := 2; write(a) }", vec![]);
    assert_eq!(result, Ok(()));
    assert_eq!(output, vec!["2".to_string()]);
}

#[test]
fn every_call_argument_is_checked_and_moved() {
    let result = analyze("{ proc p() { skip }, var a = 5; call p(a); write(a) }");
    assert!(has_error(&result, "Número incorreto de argumentos para p: esperado 0, obtido 1"));
    assert!(has_error(&result, "movida: a"));
    assert!(has_error(&analyze("{ proc p() { skip }; call p(zz) }"), "Variável não declarada: zz"));
}

#[test]
fn mark_as_moved_touches_the_current_scope_only() {
    let a = "a".to_string();
    let b = "b".to_string();
    let info = VariableInfo { type_: Type::Int, moved: false, mutable: true };
    let mut analyzer = SemanticAnalyzer::new();
    assert!(analyzer.env.declare_variable(b.clone(), info));
    analyzer.env.nest();
    assert!(analyzer.env.declare_variable(a.clone(), info));
    analyzer.mark_as_moved(&a);
    analyzer.mark_as_moved(&b);
    assert_eq!(analyzer.env.get_variable(&a), Err(BindingError::AlreadyMoved));
    assert_eq!(analyzer.env.get_variable(&b), Ok(info));
}

#[test]
fn operator_entry_point_stops_on_reported_operand() {
    let (_, neg) = parse_expression("-zz").unwrap();
    let mut executor = Executor::new();
    assert_eq!(executor.execute_unary_expression(&neg, 10), Err(Halt::Reported));
    assert!(executor.errors.iter().any(|e| e.contains("não definida: zz")));
}

#[test]
fn read_trims_unicode_whitespace() {
    let input = vec!["\u{a0}42\u{3000}".to_string()];
    let (result, output) = run("read(a); write(a + 1)", input);
    assert_eq!(result, Ok(()));
    assert_eq!(output, vec!["43".to_string()]);
}
