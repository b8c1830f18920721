use func::common::ast::{
    ArrayExpression, BinaryExpression, BuiltinFunction, BuiltinFunctionStatement, Expression,
    LiteralExpression, Program, Statement, UnaryExpression,
};
use func::common::error::{Error, ErrorType};
use func::common::object::{Meta, Object};
use func::common::position::Position;
use func::common::text::Fragment;
use func::common::token::{Token, TokenType};
use func::frontend::lexer::Lexer;
use func::frontend::parser::Parser;
use func::runtime::interpreter::{Action, Event, Interpreter};
use func::runtime::operators::{
    evaluate_binary_expression, evaluate_unary_expression, Operation, Outcome,
};

/// A console for the tests: lines to be read, and what was printed.
struct Console {
    input: Vec<String>,
    output: String,
    actions: Vec<String>,
}

fn console(input: &[&str]) -> Console {
    Console {
        input: input.iter().rev().map(|line| line.to_string()).collect(),
        output: String::new(),
        actions: Vec::new(),
    }
}

fn render(fragments: &[Fragment]) -> String {
    let mut text = String::new();
    for fragment in fragments {
        match fragment {
            Fragment::Text(piece) => text.push_str(piece),
            Fragment::Number(bits) => text.push_str(&format!("{}", f64::from_bits(*bits))),
        }
    }
    text
}

fn compute(operation: Operation, left: u64, right: u64) -> u64 {
    let left = f64::from_bits(left);
    let right = f64::from_bits(right);
    let result = match operation {
        Operation::Add => left + right,
        Operation::Subtract => left - right,
        Operation::Multiply => left * right,
        Operation::Divide => left / right,
        Operation::Remainder => left % right,
    };
    result.to_bits()
}

/// Steps the evaluator until the program has ended or failed.
fn drive(interpreter: &mut Interpreter, console: &mut Console) -> Result<(), Error> {
    let mut event = Event::Resume;
    loop {
        let action = interpreter.step(event);
        event = match action {
            Action::Continue => Event::Resume,
            Action::Parse(digits) => {
                console.actions.push(format!("parse {}", digits));
                match digits.parse::<f64>() {
                    Ok(value) => Event::Number(value.to_bits()),
                    Err(_) => Event::Invalid,
                }
            }
            Action::Compute(operation, left, right) => {
                console.actions.push(format!(
                    "compute {:?} {} {}",
                    operation,
                    f64::from_bits(left),
                    f64::from_bits(right)
                ));
                Event::Number(compute(operation, left, right))
            }
            Action::Read => {
                console.actions.push("read".to_string());
                Event::Line(console.input.pop().unwrap_or_default())
            }
            Action::Write(fragments) => {
                let text = render(&fragments);
                console.actions.push(format!("write {}", text));
                console.output.push_str(&text);
                Event::Resume
            }
            Action::Finish => return Ok(()),
            Action::Fail(error) => return Err(error),
        };
    }
}

fn program(source: &str) -> Program {
    let tokens = Lexer::new("script".to_string(), source).lex().unwrap();
    Parser::new(tokens).parse().unwrap()
}

fn run_with(source: &str, input: &[&str]) -> (Interpreter, Console, Result<(), Error>) {
    let mut interpreter = Interpreter::new();
    let mut console = console(input);
    interpreter.interpret(program(source));
    let result = drive(&mut interpreter, &mut console);
    (interpreter, console, result)
}

fn run(source: &str) -> (Interpreter, String) {
    let (interpreter, console, result) = run_with(source, &[]);
    if let Err(error) = result {
        panic!("{}", render(&error.message));
    }
    (interpreter, console.output)
}

fn output(source: &str) -> String {
    run(source).1
}

fn failure(source: &str) -> (String, usize, String) {
    let (_, console, result) = run_with(source, &[]);
    let error = result.unwrap_err();
    assert_eq!(error.e_type, ErrorType::RuntimeError);
    assert_eq!(error.position.source_path, "script");
    (render(&error.message), error.position.row, console.output)
}

fn here() -> Position {
    Position::new("script".to_string(), 1)
}

fn name(lexeme: &str) -> Token {
    Token::new(TokenType::Identifier, lexeme.to_string(), None, here())
}

fn operator(ttype: TokenType, lexeme: &str) -> Token {
    Token::new(ttype, lexeme.to_string(), None, here())
}

fn number(value: f64) -> Object {
    Object::Number(value.to_bits(), Meta::default())
}

fn string(text: &str) -> Object {
    Object::String(text.to_string(), Meta::default())
}

fn boolean(truth: bool) -> Object {
    Object::Boolean(truth, Meta::default())
}

fn nil() -> Object {
    Object::Nil(Meta::default())
}

fn variable(interpreter: &Interpreter, lexeme: &str) -> Object {
    interpreter.variables().get(name(lexeme)).unwrap()
}

#[test]
fn precedence_binds_x_to_seven() {
    let (interpreter, _) = run("let x = 1 + 2 * 3");
    assert!(variable(&interpreter, "x") == number(7.0));
}

#[test]
fn inner_let_does_not_leak() {
    assert_eq!(output("let x = 1 { let x = 2 } write(x)"), "1");
    let (interpreter, _) = run("let x = 1 { let x = 2 let y = 3 }");
    assert!(variable(&interpreter, "x") == number(1.0));
    assert!(interpreter.variables().get(name("y")).is_err());
}

#[test]
fn a_block_leaves_the_variables_as_they_were() {
    assert_eq!(output("let x = 1 { x = 2 write(x) } write(x)"), "21");
}

#[test]
fn return_unwinds_nested_blocks() {
    let source = "func f(a) { if a > 0 { return a } return 0 }";
    let (interpreter, _) = run(&format!("{} let p = f(5) let n = f(-1)", source));
    assert!(variable(&interpreter, "p") == number(5.0));
    assert!(variable(&interpreter, "n") == number(0.0));
    assert_eq!(
        output("func f(a) { { { if a { return 1 } } write(\"no\") } return 2 } write(f(true), f(false))"),
        "1no2"
    );
}

#[test]
fn a_return_does_not_unwind_the_caller() {
    assert_eq!(
        output("func one() { return 1 } func two() { let a = one() write(\"after\") return a + 1 } write(two())"),
        "after2"
    );
    assert_eq!(output("func one() { return 1 } { let a = one() write(a) write(\"on\") }"), "1on");
}

#[test]
fn push_then_pop_leaves_the_array() {
    let (interpreter, _) = run("let a = [1, 2, 3] push(4, a) pop(a)");
    assert!(
        variable(&interpreter, "a")
            == Object::Array(vec![number(1.0), number(2.0), number(3.0)], Meta::default())
    );
    let (interpreter, _) = run("let a = [1, 2, 3] push(4, a)");
    assert!(
        variable(&interpreter, "a")
            == Object::Array(
                vec![number(1.0), number(2.0), number(3.0), number(4.0)],
                Meta::default()
            )
    );
    assert_eq!(output("let a = [\"x\"] pop(a) pop(a) write(a) push(a, a) write(a)"), "[][[],]");
}

#[test]
fn one_plus_true_is_a_type_error() {
    let (message, row, _) = failure("\n1 + true");
    assert!(message.contains("`+`"));
    assert!(message.contains("`boolean`"));
    assert_eq!(message, "Type mismatch, `+` doesn't support `boolean` as it's operand");
    assert_eq!(row, 2);
}

#[test]
fn the_same_program_runs_the_same_way_twice() {
    let source = "func f(n) { if n <= 0 { return [1] } write(n, \" \") return f(n - 1) } \
                  let r = f(3) read(r) write(r, 2 / 3)";
    let (first, first_console, first_result) = run_with(source, &["line"]);
    let (second, second_console, second_result) = run_with(source, &["line"]);
    assert!(first_result.is_ok() && second_result.is_ok());
    assert_eq!(first_console.output, "3 2 1 line0.6666666666666666");
    assert_eq!(first_console.output, second_console.output);
    assert_eq!(first_console.actions, second_console.actions);
    assert!(variable(&first, "r") == variable(&second, "r"));
}

#[test]
fn arithmetic_is_asked_of_the_host() {
    let (_, console, result) = run_with("write(7 - 2 * 3 / 4 % 5)", &[]);
    assert!(result.is_ok());
    assert_eq!(
        console.actions,
        vec![
            "parse 7",
            "parse 2",
            "parse 3",
            "compute Multiply 2 3",
            "parse 4",
            "compute Divide 6 4",
            "parse 5",
            "compute Remainder 1.5 5",
            "compute Subtract 7 1.5",
            "write 5.5",
        ]
    );
    assert_eq!(output("write(-3, \" \", -(1 - 2), \" \", 0 / 0)"), "-3 1 NaN");
}

#[test]
fn comparisons_of_numbers() {
    assert_eq!(output("write(1 < 2, 2 < 1, 1 <= 1, 1 >= 2, 2 > 1, 1 > 1)"), "truefalsetruefalsetruefalse");
    assert_eq!(output("write(0 / 0 < 1, 0 / 0 >= 1, 0 / 0 == 0 / 0, 0 / 0 != 0 / 0)"), "falsefalsefalsetrue");
    assert_eq!(output("write(-1 < 0, 0 == -0, 1 / 0 > 1, -1 / 0 < 1)"), "truetruetruetrue");
}

#[test]
fn strings_are_joined_by_plus_and_by_the_ordering_operators() {
    assert_eq!(output("write(\"a\" + \"b\")"), "ab");
    assert_eq!(output("write(\"a\" < \"b\", \"c\" >= \"d\", \"e\" > \"f\", \"g\" <= \"h\")"), "abcdefgh");
}

#[test]
fn equality_never_fails() {
    assert_eq!(
        output("write(1 == 1, 1 == \"1\", nil == nil, nil != false, [1, 2] == [1, 2], [1] != [1, 2], \"a\" == \"a\")"),
        "truefalsetruetruetruetruetrue"
    );
}

#[test]
fn logic_goes_by_truthiness_and_evaluates_both_sides() {
    assert_eq!(output("write(1 && \"x\", nil || false, 0 || nil, !nil, !0, ![1])"), "truefalsetruetruefalsefalse");
    assert_eq!(
        output("func loud() { write(\"called\") return true } write(false && loud(), true || loud())"),
        "calledfalsecalledtrue"
    );
}

#[test]
fn type_errors_name_operator_and_kind() {
    assert_eq!(failure("true - false").0, "Type mismatch, `-` doesn't support `boolean` as it's operand");
    assert_eq!(failure("nil * nil").0, "Type mismatch, `*` doesn't support `nil` as it's operand");
    assert_eq!(failure("\"a\" / \"b\"").0, "Type mismatch, `/` doesn't support `string` as it's operand");
    assert_eq!(failure("true % false").0, "Type mismatch, `%` doesn't support `boolean` as it's operand");
    assert_eq!(failure("[1] + [2]").0, "Type mismatch, `+` doesn't support `array` as it's operand");
    assert_eq!(failure("1 - \"a\"").0, "Type mismatch, `-` doesn't support `string` as it's operand");
    assert_eq!(failure("\"a\" + 1").0, "Type mismatch, `+` doesn't support `number` as it's operand");
    assert_eq!(failure("1 + \"a\"").0, "Type mismatch, `+` doesn't support `string` as it's operand");
    assert_eq!(failure("nil < 1").0, "Type mismatch, `<` doesn't support `nil` as it's operand");
    assert_eq!(failure("1 >= true").0, "Type mismatch, `>=` doesn't support `boolean` as it's operand");
    assert_eq!(failure("-true").0, "Type mismatch, `-` does not support `boolean` as it's operand");
    assert_eq!(failure("-\"a\"").0, "Type mismatch, `-` does not support `string` as it's operand");
    assert_eq!(failure("-nil").0, "Type mismatch, `-` does not support `nil` as it's operand");
    assert_eq!(failure("-[1]").0, "Type mismatch, `-` does not support `array` as it's operand");
}

#[test]
fn operators_on_given_values() {
    let plus = operator(TokenType::Plus, "+");
    match evaluate_binary_expression(&plus, &number(1.0), &number(2.0)) {
        Outcome::Compute(Operation::Add, left, right) => {
            assert_eq!(left, 1.0f64.to_bits());
            assert_eq!(right, 2.0f64.to_bits());
        }
        other => panic!("{:?}", other),
    }
    match evaluate_binary_expression(&plus, &string("a"), &string("b")) {
        Outcome::Value(value) => assert!(value == string("ab")),
        other => panic!("{:?}", other),
    }
    match evaluate_binary_expression(&operator(TokenType::Less, "<"), &number(1.0), &number(2.0)) {
        Outcome::Value(value) => assert!(value == boolean(true)),
        other => panic!("{:?}", other),
    }
    match evaluate_binary_expression(&operator(TokenType::EqualEqual, "=="), &nil(), &nil()) {
        Outcome::Value(value) => assert!(value == boolean(true)),
        other => panic!("{:?}", other),
    }
    let marked = Object::Number(1.0f64.to_bits(), Meta { is_return: true });
    match evaluate_binary_expression(&operator(TokenType::NotEqual, "!="), &marked, &number(1.0)) {
        Outcome::Value(value) => {
            assert!(matches!(value, Object::Boolean(false, Meta { is_return: false })))
        }
        other => panic!("{:?}", other),
    }
    match evaluate_binary_expression(&operator(TokenType::EqualEqual, "=="), &marked, &number(1.0)) {
        Outcome::Value(value) => {
            assert!(matches!(value, Object::Boolean(true, Meta { is_return: false })))
        }
        other => panic!("{:?}", other),
    }
    match evaluate_binary_expression(&operator(TokenType::Comma, ","), &nil(), &nil()) {
        Outcome::Failure(error) => {
            assert_eq!(error.e_type, ErrorType::RuntimeError);
            assert_eq!(render(&error.message), "`,` is not a binary operator.");
        }
        other => panic!("{:?}", other),
    }
    match evaluate_unary_expression(&operator(TokenType::Minus, "-"), &number(2.0)) {
        Outcome::Compute(Operation::Multiply, left, right) => {
            assert_eq!(left, 2.0f64.to_bits());
            assert_eq!(right, (-1.0f64).to_bits());
        }
        other => panic!("{:?}", other),
    }
    match evaluate_unary_expression(&operator(TokenType::Not, "!"), &nil()) {
        Outcome::Value(value) => assert!(value == boolean(true)),
        other => panic!("{:?}", other),
    }
    match evaluate_unary_expression(&operator(TokenType::Plus, "+"), &number(2.0)) {
        Outcome::Failure(error) => assert_eq!(render(&error.message), "`+` is not a unary operator."),
        other => panic!("{:?}", other),
    }
}

#[test]
fn tokens_that_are_no_operators_fail_when_evaluated() {
    let mut interpreter = Interpreter::new();
    let one = || Expression::Literal(LiteralExpression::new(Token::new(
        TokenType::Number,
        "1".to_string(),
        None,
        here(),
    )));
    interpreter.interpret(vec![Statement::Expression(Expression::Binary(BinaryExpression::new(
        one(),
        operator(TokenType::Equal, "="),
        one(),
    )))]);
    let error = drive(&mut interpreter, &mut console(&[])).unwrap_err();
    assert_eq!(render(&error.message), "`=` is not a binary operator.");
    interpreter.interpret(vec![Statement::Expression(Expression::Unary(UnaryExpression::new(
        operator(TokenType::Star, "*"),
        one(),
    )))]);
    let error = drive(&mut interpreter, &mut console(&[])).unwrap_err();
    assert_eq!(render(&error.message), "`*` is not a unary operator.");
}

#[test]
fn unknown_names_are_errors() {
    assert_eq!(failure("write(1)\nwrite(y)"), ("Variable `y` doesn't exist.".to_string(), 2, "1".to_string()));
    assert_eq!(failure("y = 1").0, "Variable `y` doesn't exist.");
    assert_eq!(failure("f(1)").0, "Function `f` doesn't exist.");
    assert_eq!(failure("push(1, a)").0, "Variable `a` doesn't exist.");
    assert_eq!(failure("pop(a)").0, "Variable `a` doesn't exist.");
    let (_, console, result) = run_with("read(a)", &["text"]);
    assert_eq!(render(&result.unwrap_err().message), "Variable `a` doesn't exist.");
    assert_eq!(console.actions, vec!["read"]);
}

#[test]
fn assignment_is_checked_before_its_expression_is_evaluated() {
    assert_eq!(failure("y = { write(\"evaluated\") 1 }").2, "");
}

#[test]
fn calls_need_as_many_arguments_as_parameters() {
    assert_eq!(failure("func f(a, b) {}\nf(1)"), ("Expected 2 arguments, got 1".to_string(), 2, String::new()));
    assert_eq!(failure("func f() {} f(1, 2, 3)").0, "Expected 0 arguments, got 3");
    assert_eq!(failure("func f(a) {} f(write_nothing())").0, "Function `write_nothing` doesn't exist.");
}

#[test]
fn arrays_only_can_grow_and_shrink() {
    assert_eq!(failure("let a = 1.5 push(2, a)").0, "`1.5` does not have `push` method associated with it");
    assert_eq!(failure("let a = \"text\" pop(a)").0, "`text` does not have `push` method associated with it");
    assert_eq!(failure("let a = nil\npop(a)").1, 2);
}

#[test]
fn functions_see_the_variables_of_their_caller_and_leak_none() {
    assert_eq!(output("let g = 1 func f(a) { let local = a + g g = 10 return local } write(f(2), g)"), "31");
    assert_eq!(failure("func f(a) { let local = a } f(1) write(local)").0, "Variable `local` doesn't exist.");
    assert_eq!(failure("func f(a) { } f(1) write(a)").0, "Variable `a` doesn't exist.");
}

#[test]
fn arguments_are_evaluated_in_the_variables_of_the_caller() {
    assert_eq!(output("let a = 10 func f(a, b) { write(a, \" \", b) } f(1, a)"), "1 10");
}

#[test]
fn a_later_definition_replaces_an_earlier_one() {
    assert_eq!(output("func f() { return 1 } func f() { return 2 } write(f())"), "2");
}

#[test]
fn blocks_and_ifs_have_values() {
    assert_eq!(output("let x = { 1 2 } write(x)"), "2");
    assert_eq!(output("let x = {} write(x)"), "nil");
    assert_eq!(output("let x = if nil { 1 } write(x)"), "nil");
    assert_eq!(output("let x = if 0 { 1 } else { 2 } write(x)"), "1");
    assert_eq!(output("let x = if false { 1 } else if false { 2 } else { 3 } write(x)"), "3");
    assert_eq!(output("let x = (1 + 2) * 3 write(x)"), "9");
    assert_eq!(output("let x write(x)"), "nil");
    assert_eq!(output("func f() { } write(f())"), "nil");
    assert_eq!(output("func f() { 5 } write(f())"), "5");
}

#[test]
fn write_prints_without_separators() {
    assert_eq!(output("write(1, 2.5, \"a\\nb\", true, nil, [1, \"x\", false])"), "12.5a\nbtruenil[1,x,false,]");
    assert_eq!(output("write(100000000000000000000000, 0.1 + 0.2)"), "1000000000000000000000000.30000000000000004");
}

#[test]
fn write_prints_each_argument_before_the_next_is_evaluated() {
    assert_eq!(failure("write(1, 2, missing)").2, "12");
    assert_eq!(output("func f() { write(\"in\") return \"out\" } write(\"a\", f(), \"b\")"), "ainoutb");
}

#[test]
fn read_assigns_the_trimmed_line() {
    let (interpreter, console, result) =
        run_with("let a = 1 let b = 2 read(a) read(b) write(a, b)", &["  first line \n", "\n"]);
    assert!(result.is_ok());
    assert_eq!(console.output, "first line");
    assert!(variable(&interpreter, "a") == string("first line"));
    assert!(variable(&interpreter, "b") == string(""));
}

#[test]
fn recursion_goes_as_deep_as_memory_allows() {
    assert_eq!(
        output("func fact(n) { if n <= 1 { return 1 } return n * fact(n - 1) } write(fact(10))"),
        "3628800"
    );
    assert_eq!(
        output("func down(n) { if n == 0 { return \"done\" } return down(n - 1) } write(down(20000))"),
        "done"
    );
}

#[test]
fn the_tables_outlive_a_program() {
    let mut interpreter = Interpreter::new();
    let mut first = console(&[]);
    interpreter.interpret(program("let kept = 1 func f() { return kept + 1 }"));
    drive(&mut interpreter, &mut first).unwrap();
    let mut second = console(&[]);
    interpreter.interpret(program("write(f()) { let inner = 1 missing }"));
    let error = drive(&mut interpreter, &mut second).unwrap_err();
    assert_eq!(render(&error.message), "Variable `missing` doesn't exist.");
    assert_eq!(second.output, "2");
    assert!(interpreter.variables().get(name("inner")).is_err());
    assert!(variable(&interpreter, "kept") == number(1.0));
    let mut third = console(&[]);
    interpreter.interpret(program("write(kept)"));
    drive(&mut interpreter, &mut third).unwrap();
    assert_eq!(third.output, "1");
}

#[test]
fn an_answer_that_was_not_asked_for_changes_nothing() {
    let mut interpreter = Interpreter::new();
    interpreter.interpret(program("let a = 1 read(a) write(a + 1)"));
    assert!(matches!(interpreter.step(Event::Resume), Action::Continue));
    assert!(matches!(interpreter.step(Event::Number(5)), Action::Continue));
    match interpreter.step(Event::Resume) {
        Action::Parse(digits) => assert_eq!(digits, "1"),
        other => panic!("{:?}", other),
    }
    match interpreter.step(Event::Resume) {
        Action::Parse(digits) => assert_eq!(digits, "1"),
        other => panic!("{:?}", other),
    }
    match interpreter.step(Event::Line("x".to_string())) {
        Action::Parse(digits) => assert_eq!(digits, "1"),
        other => panic!("{:?}", other),
    }
    assert!(matches!(interpreter.step(Event::Number(1.0f64.to_bits())), Action::Continue));
    let mut console = console(&["41"]);
    let mut asked_twice = false;
    loop {
        match interpreter.step(Event::Resume) {
            Action::Continue => {}
            Action::Read => {
                assert!(matches!(interpreter.step(Event::Number(0)), Action::Read));
                asked_twice = true;
                assert!(matches!(interpreter.step(Event::Line("41".to_string())), Action::Continue));
                break;
            }
            other => panic!("{:?}", other),
        }
    }
    assert!(asked_twice);
    let error = drive(&mut interpreter, &mut console).unwrap_err();
    assert_eq!(render(&error.message), "Type mismatch, `+` doesn't support `number` as it's operand");
    assert!(matches!(interpreter.step(Event::Resume), Action::Finish));
    assert!(matches!(interpreter.step(Event::Number(1)), Action::Finish));
}

#[test]
fn a_number_token_that_carries_its_value_is_not_asked_for() {
    let carried = Token::new(
        TokenType::Number,
        "2".to_string(),
        Some(number(2.0)),
        here(),
    );
    let bare = Token::new(TokenType::Number, "3".to_string(), None, here());
    let mut interpreter = Interpreter::new();
    interpreter.interpret(vec![
        Statement::BuiltinFunction(BuiltinFunctionStatement::new(
            BuiltinFunction::Write,
            vec![
                Expression::Literal(LiteralExpression::new(carried.clone())),
                Expression::Array(ArrayExpression::new(vec![
                    carried,
                    name("skipped"),
                    bare,
                    Token::new(
                        TokenType::String,
                        "\"s\"".to_string(),
                        Some(string("s")),
                        here(),
                    ),
                ])),
            ],
        )),
    ]);
    let mut console = console(&[]);
    drive(&mut interpreter, &mut console).unwrap();
    assert_eq!(console.actions, vec!["write 2", "parse 3", "write [2,3,s,]"]);
}

#[test]
fn digits_that_spell_no_number_are_a_lexing_error() {
    let mut interpreter = Interpreter::new();
    interpreter.interpret(vec![Statement::Expression(Expression::Literal(LiteralExpression::new(
        Token::new(TokenType::Number, "1.2.3".to_string(), None, Position::new("odd".to_string(), 9)),
    )))]);
    let mut console = console(&[]);
    let error = drive(&mut interpreter, &mut console).unwrap_err();
    assert_eq!(error.e_type, ErrorType::LexingError);
    assert_eq!(render(&error.message), "could not parse 1.2.3 to float");
    assert_eq!(error.position.row, 9);
    assert_eq!(error.position.source_path, "odd");
    assert_eq!(console.actions, vec!["parse 1.2.3"]);
}

#[test]
fn malformed_builtin_statements_fail() {
    for statement in [
        BuiltinFunctionStatement::new(BuiltinFunction::Read, vec![]),
        BuiltinFunctionStatement::new(
            BuiltinFunction::Pop,
            vec![Expression::Literal(LiteralExpression::new(name("x")))],
        ),
        BuiltinFunctionStatement::new(
            BuiltinFunction::Push,
            vec![Expression::Literal(LiteralExpression::new(name("x")))],
        ),
    ] {
        let mut interpreter = Interpreter::new();
        interpreter.interpret(vec![Statement::BuiltinFunction(statement)]);
        let error = drive(&mut interpreter, &mut console(&[])).unwrap_err();
        assert_eq!(error.e_type, ErrorType::RuntimeError);
        assert_eq!(render(&error.message), "Malformed built-in statement");
    }
    let mut interpreter = Interpreter::new();
    interpreter.interpret(vec![Statement::BuiltinFunction(BuiltinFunctionStatement::new(
        BuiltinFunction::Write,
        vec![],
    ))]);
    assert!(drive(&mut interpreter, &mut console(&[])).is_ok());
}

#[test]
fn a_fresh_evaluator_is_at_rest() {
    let mut interpreter = Interpreter::new();
    assert!(matches!(interpreter.step(Event::Resume), Action::Finish));
    interpreter.interpret(Vec::new());
    assert!(matches!(interpreter.step(Event::Resume), Action::Finish));
    assert!(interpreter.functions().get(name("f")).is_err());
}

#[test]
fn a_return_at_the_top_is_evaluated() {
    assert_eq!(failure("return missing").0, "Variable `missing` doesn't exist.");
    assert_eq!(output("return 1 write(\"on\")"), "on");
}

#[test]
fn evaluating_an_expression_leaves_the_variables() {
    let (interpreter, shown) = run(
        "let x = 1 func f(a) { x = a let z = a return a * 2 } \
         let y = ({ let x = 5 x = 6 x + f(x) }) + f(10) write(x, \" \", y)",
    );
    assert_eq!(shown, "1 38");
    assert!(variable(&interpreter, "x") == number(1.0));
    assert!(variable(&interpreter, "y") == number(38.0));
    assert!(interpreter.variables().get(name("z")).is_err());
    assert!(interpreter.variables().get(name("a")).is_err());
}

#[test]
fn a_declaration_binds_the_value_of_its_expression() {
    let (interpreter, _) = run("let s = \"a\" + \"b\" let n let t = true let l = [1, \"x\"]");
    assert!(variable(&interpreter, "s") == string("ab"));
    assert!(variable(&interpreter, "n") == nil());
    assert!(variable(&interpreter, "t") == boolean(true));
    assert!(variable(&interpreter, "l") == Object::Array(vec![number(1.0), string("x")], Meta::default()));
}

#[test]
fn functions_may_be_defined_anywhere_and_are_global() {
    assert_eq!(output("{ func inner() { return 3 } } write(inner())"), "3");
    assert_eq!(output("func outer() { func made() { return 4 } return 0 } outer() write(made())"), "4");
}

#[test]
fn a_failed_block_leaves_no_declaration_behind() {
    let mut interpreter = Interpreter::new();
    interpreter.interpret(program("let x = 1"));
    drive(&mut interpreter, &mut console(&[])).unwrap();
    interpreter.interpret(program("{ let x = 2 1 + true }"));
    let error = drive(&mut interpreter, &mut console(&[])).unwrap_err();
    assert_eq!(error.e_type, ErrorType::RuntimeError);
    assert!(variable(&interpreter, "x") == number(1.0));
    assert!(matches!(interpreter.step(Event::Resume), Action::Finish));
    assert!(variable(&interpreter, "x") == number(1.0));
}

#[test]
fn a_failed_call_leaves_the_variables_of_the_caller() {
    let mut interpreter = Interpreter::new();
    interpreter.interpret(program(
        "let x = 1 func f(a) { x = a let y = 2 { let z = 3 missing } } let w = 4 { let v = 5 1 + f(9) }",
    ));
    let error = drive(&mut interpreter, &mut console(&[])).unwrap_err();
    assert_eq!(render(&error.message), "Variable `missing` doesn't exist.");
    assert!(variable(&interpreter, "x") == number(1.0));
    assert!(variable(&interpreter, "w") == number(4.0));
    for gone in ["a", "y", "z", "v"] {
        assert!(interpreter.variables().get(name(gone)).is_err(), "{}", gone);
    }
    assert!(interpreter.functions().get(name("f")).is_ok());
}

#[test]
fn a_failure_outside_every_block_keeps_what_was_committed() {
    let mut interpreter = Interpreter::new();
    interpreter.interpret(program("let x = 1 x = 2 let y = 3 missing let z = 4"));
    assert!(drive(&mut interpreter, &mut console(&[])).is_err());
    assert!(variable(&interpreter, "x") == number(2.0));
    assert!(variable(&interpreter, "y") == number(3.0));
    assert!(interpreter.variables().get(name("z")).is_err());
}

#[test]
fn equality_does_not_look_at_the_return_mark() {
    assert_eq!(output("write(({ return true }) == true, ({ return 1 }) != 1)"), "truefalse");
    assert_eq!(output("write({ return [1, 2] } == [1, 2])"), "true");
    assert_eq!(output("func f() { return \"a\" } write(f() == { return \"a\" })"), "true");
}

#[test]
fn blocks_and_ifs_are_operands() {
    assert_eq!(output("write(1 + if true { 1 } else { 2 })"), "2");
    assert_eq!(output("write(-{ 3 })"), "-3");
    assert_eq!(output("let c = nil let x = { 1 } + if c { 10 } else { 20 } * 2 write(x)"), "41");
    assert_eq!(output("write(!if nil { 1 })"), "true");
}

#[test]
fn statements_and_blocks_can_be_taken_up_directly() {
    let mut interpreter = Interpreter::new();
    let statement = program("let x = 1 + 2").remove(0);
    assert!(matches!(interpreter.execute_statement(statement), Action::Continue));
    drive(&mut interpreter, &mut console(&[])).unwrap();
    assert!(variable(&interpreter, "x") == number(3.0));
    let block = match program("{ let x = 9 let y = 2 }").remove(0) {
        Statement::Expression(Expression::Block(block)) => block,
        _ => panic!("no block"),
    };
    assert!(matches!(interpreter.evaluate_block_expression(block), Action::Continue));
    drive(&mut interpreter, &mut console(&[])).unwrap();
    assert!(variable(&interpreter, "x") == number(3.0));
    assert!(interpreter.variables().get(name("y")).is_err());
}
