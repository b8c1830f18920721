use func::common::ast::{BuiltinFunction, ElseBlock, Expression, Program, Statement};
use func::common::error::{Error, ErrorType};
use func::common::object::{Meta, Object};
use func::common::text::Fragment;
use func::common::token::TokenType;
use func::frontend::lexer::Lexer;
use func::frontend::parser::{read_program, Parser};

fn parse(source: &str) -> Result<Program, Error> {
    let tokens = Lexer::new("parser".to_string(), source).lex().unwrap();
    Parser::new(tokens).parse()
}

fn message(error: &Error) -> String {
    let mut text = String::new();
    for fragment in &error.message {
        match fragment {
            Fragment::Text(piece) => text.push_str(piece),
            Fragment::Number(bits) => text.push_str(&format!("{}", f64::from_bits(*bits))),
        }
    }
    text
}

/// The expression written out with every operator application in parentheses.
fn shape(expression: &Expression) -> String {
    match expression {
        Expression::Block(block) => format!("{{{}}}", shapes(&block.statements)),
        Expression::If(branch) => {
            let mut text =
                format!("if {} {{{}}}", shape(&branch.condition), shapes(&branch.if_block.statements));
            match &*branch.else_block {
                None => {}
                Some(ElseBlock::Block(block)) => {
                    text.push_str(&format!(" else {{{}}}", shapes(&block.statements)))
                }
                Some(ElseBlock::If(nested)) => text.push_str(&format!(
                    " else {}",
                    shape(&Expression::If(nested.clone()))
                )),
            }
            text
        }
        Expression::Binary(binary) => format!(
            "({} {} {})",
            shape(&binary.left),
            binary.operator.lexeme,
            shape(&binary.right)
        ),
        Expression::Unary(unary) => format!("({}{})", unary.operator.lexeme, shape(&unary.right)),
        Expression::Group(group) => format!("<{}>", shape(&group.child)),
        Expression::Call(call) => format!(
            "{}({})",
            call.identifier.lexeme,
            call.arguments.iter().map(shape).collect::<Vec<_>>().join(", ")
        ),
        Expression::Identifier(name) => name.identifier.lexeme.clone(),
        Expression::Literal(literal) => literal.object.lexeme.clone(),
        Expression::Array(array) => format!(
            "[{}]",
            array.objects.iter().map(|token| token.lexeme.clone()).collect::<Vec<_>>().join(", ")
        ),
    }
}

fn shapes(statements: &[Statement]) -> String {
    statements
        .iter()
        .map(|statement| match statement {
            Statement::Let(statement) => {
                format!("let {} = {}", statement.identifier.lexeme, shape(&statement.expression))
            }
            Statement::Assignment(statement) => {
                format!("{} = {}", statement.identifier.lexeme, shape(&statement.expression))
            }
            Statement::Function(function) => format!(
                "func {}({}) {{{}}}",
                function.identifier.lexeme,
                function
                    .paramiters
                    .iter()
                    .map(|token| token.lexeme.clone())
                    .collect::<Vec<_>>()
                    .join(", "),
                shapes(&function.block.statements)
            ),
            Statement::BuiltinFunction(call) => format!(
                "{}({})",
                match call.builtin_function {
                    BuiltinFunction::Read => "read",
                    BuiltinFunction::Write => "write",
                    BuiltinFunction::Push => "push",
                    BuiltinFunction::Pop => "pop",
                },
                call.arguments.iter().map(shape).collect::<Vec<_>>().join(", ")
            ),
            Statement::Return(expression) => format!("return {}", shape(expression)),
            Statement::Expression(expression) => shape(expression),
        })
        .collect::<Vec<_>>()
        .join("; ")
}

fn parsed(source: &str) -> String {
    shapes(&parse(source).unwrap())
}

fn failure(source: &str) -> (String, usize) {
    let error = parse(source).unwrap_err();
    assert_eq!(error.e_type, ErrorType::ParsingError);
    assert_eq!(error.position.source_path, "parser");
    (message(&error), error.position.row)
}

#[test]
fn multiplication_binds_tighter_than_addition() {
    assert_eq!(parsed("let x = 1 + 2 * 3"), "let x = (1 + (2 * 3))");
    assert_eq!(parsed("1 * 2 + 3"), "((1 * 2) + 3)");
}

#[test]
fn operators_group_to_the_left() {
    assert_eq!(parsed("1 - 2 - 3"), "((1 - 2) - 3)");
    assert_eq!(parsed("8 / 4 % 3 * 2"), "(((8 / 4) % 3) * 2)");
    assert_eq!(parsed("a == b != c"), "((a == b) != c)");
    assert_eq!(parsed("a < b >= c"), "((a < b) >= c)");
}

#[test]
fn levels_from_loosest_to_tightest() {
    assert_eq!(
        parsed("a && b || c == d < e + f * -g"),
        "(a && (b || (c == (d < (e + (f * (-g)))))))"
    );
    assert_eq!(parsed("a || b && c || d"), "((a || b) && (c || d))");
    assert_eq!(parsed("!a == b"), "((!a) == b)");
    assert_eq!(parsed("(1 + 2) * 3"), "(<(1 + 2)> * 3)");
}

#[test]
fn one_prefix_operator_only() {
    let (text, _) = failure("--1");
    assert_eq!(text, "Unexpected token `-`");
}

#[test]
fn statements_are_told_by_their_first_token() {
    assert_eq!(parsed("let x"), "let x = nil");
    assert_eq!(parsed("x = 1 y"), "x = 1; y");
    assert_eq!(parsed("x == 1"), "(x == 1)");
    assert_eq!(parsed("return 1 + 2"), "return (1 + 2)");
    assert_eq!(parsed("{ let a = 1 a }"), "{let a = 1; a}");
    assert_eq!(parsed("{}"), "{}");
    assert_eq!(parsed("func f() {}"), "func f() {}");
    assert_eq!(parsed("func add(a, b) { return a + b }"), "func add(a, b) {return (a + b)}");
    assert_eq!(parsed("f() g(1) h(1, x + 2, k())"), "f(); g(1); h(1, (x + 2), k())");
}

#[test]
fn a_declaration_without_a_value_gets_nil() {
    let program = parse("let x\nlet y").unwrap();
    match &program[0] {
        Statement::Let(statement) => match &statement.expression {
            Expression::Literal(literal) => {
                assert_eq!(literal.object.ttype, TokenType::Nil);
                assert_eq!(literal.object.lexeme, "nil");
                assert!(literal.object.literal == Some(Object::Nil(Meta::default())));
                assert_eq!(literal.object.position.row, 2);
            }
            _ => panic!("no literal"),
        },
        _ => panic!("no declaration"),
    }
}

#[test]
fn builtin_statements_have_fixed_shapes() {
    assert_eq!(parsed("read(x)"), "read(x)");
    assert_eq!(parsed("write(1)"), "write(1)");
    assert_eq!(parsed("write(1, x + 2, \"s\")"), "write(1, (x + 2), \"s\")");
    assert_eq!(parsed("push(1 + 2, a)"), "push((1 + 2), a)");
    assert_eq!(parsed("pop(a)"), "pop(a)");
    assert_eq!(failure("read(1)").0, "Expected `identifier`, found `number`");
    assert_eq!(failure("read x").0, "Expected `(`, found `identifier`");
    assert_eq!(failure("write()").0, "Unexpected token `)`");
    assert_eq!(failure("push(1)").0, "Expected `,`, found `)`");
    assert_eq!(failure("push(1, 2)").0, "Expected `identifier`, found `number`");
    assert_eq!(failure("pop(a, b)").0, "Expected `)`, found `,`");
    assert_eq!(failure("pop(a").0, "Expected `)`, found `\0`");
}

#[test]
fn if_is_an_expression() {
    assert_eq!(parsed("let x = if c { 1 } else { 2 }"), "let x = if c {1} else {2}");
    assert_eq!(parsed("if a { 1 }"), "if a {1}");
    assert_eq!(
        parsed("if a { 1 } else if b { 2 } else { 3 }"),
        "if a {1} else if b {2} else {3}"
    );
    assert_eq!(parsed("if a > 0 { return a } return 0"), "if (a > 0) {return a}; return 0");
    assert_eq!(parsed("1 + 2 if a { b }"), "(1 + 2); if a {b}");
}

#[test]
fn the_last_else_counts() {
    assert_eq!(parsed("if a { 1 } else { 2 } else { 3 }"), "if a {1} else {3}");
}

#[test]
fn array_literals_hold_literal_tokens() {
    assert_eq!(parsed("let a = [1, 2, 3]"), "let a = [1, 2, 3]");
    assert_eq!(parsed("[\"x\", true, 2.5]"), "[\"x\", true, 2.5]");
    assert_eq!(failure("[x]").0, "Unexpected token `identifier`");
    assert_eq!(failure("[]").0, "Unexpected token `]`");
    assert_eq!(failure("[1, ]").0, "Unexpected token `]`");
    assert_eq!(failure("[1 2]").0, "Expected `]`, found `number`");
    assert_eq!(failure("[nil]").0, "Unexpected token `nil`");
    assert_eq!(failure("[1 + 2]").0, "Expected `]`, found `+`");
}

#[test]
fn errors_name_what_was_expected_and_where() {
    assert_eq!(failure("let = 1"), ("Expected `identifier`, found `=`".to_string(), 1));
    assert_eq!(failure("\n\n(1 + 2"), ("Expected `)`, found `\0`".to_string(), 3));
    assert_eq!(failure("1 +"), ("Unexpected token `\0`".to_string(), 1));
    assert_eq!(failure("let x = 1\n)"), ("Unexpected token `)`".to_string(), 2));
    assert_eq!(failure("{ let a = 1"), ("Expected `}`, found `\0`".to_string(), 1));
    assert_eq!(failure("f(1, 2"), ("Expected `)`, found `\0`".to_string(), 1));
    assert_eq!(failure("func (a) {}"), ("Expected `identifier`, found `(`".to_string(), 1));
    assert_eq!(failure("func f a) {}"), ("Expected `(`, found `identifier`".to_string(), 1));
    assert_eq!(failure("func f(a b) {}"), ("Expected `)`, found `identifier`".to_string(), 1));
    assert_eq!(failure("func f(a,) {}"), ("Expected `identifier`, found `)`".to_string(), 1));
    assert_eq!(failure("func f(a) b"), ("Expected `{`, found `identifier`".to_string(), 1));
    assert_eq!(failure("if a b"), ("Expected `{`, found `identifier`".to_string(), 1));
    assert_eq!(failure("else { }"), ("Unexpected token `else`".to_string(), 1));
    assert_eq!(failure("x = "), ("Unexpected token `\0`".to_string(), 1));
}

#[test]
fn an_empty_source_is_an_empty_program() {
    assert!(parse("").unwrap().is_empty());
    assert!(parse("  // nothing\n").unwrap().is_empty());
}

#[test]
fn a_parser_that_has_read_all_gives_nothing_more() {
    let tokens = Lexer::new("parser".to_string(), "let a = 1").lex().unwrap();
    let mut parser = Parser::new(tokens);
    assert_eq!(parser.parse().unwrap().len(), 1);
    assert_eq!(parser.parse().unwrap().len(), 0);
}

#[test]
fn a_source_is_scanned_and_parsed_in_one_go() {
    let program = read_program("file".to_string(), "let x = 1 + 2 * 3\nwrite(x)").unwrap();
    assert_eq!(shapes(&program), "let x = (1 + (2 * 3)); write(x)");
    let error = read_program("file".to_string(), "let x = \"open").unwrap_err();
    assert_eq!(error.e_type, ErrorType::LexingError);
    assert_eq!(message(&error), "Unterminated string");
    let error = read_program("file".to_string(), "let x = 1\nlet = 2").unwrap_err();
    assert_eq!(error.e_type, ErrorType::ParsingError);
    assert_eq!(message(&error), "Expected `identifier`, found `=`");
    assert_eq!(error.position.row, 2);
    assert_eq!(error.position.source_path, "file");
}

#[test]
fn a_block_and_an_if_are_primaries() {
    assert_eq!(parsed("1 + if c { 1 } else { 2 }"), "(1 + if c {1} else {2})");
    assert_eq!(parsed("-{ 1 }"), "(-{1})");
    assert_eq!(parsed("let x = { 1 } + 2 * { 3 }"), "let x = ({1} + (2 * {3}))");
    assert_eq!(parsed("let x = if a { 1 } == if b { 2 } else { 3 }"), "let x = (if a {1} == if b {2} else {3})");
    assert_eq!(parsed("f({ 1 }, if a { 2 })"), "f({1}, if a {2})");
    assert_eq!(parsed("write(!if a { b })"), "write((!if a {b}))");
    assert_eq!(parsed("{ 1 } x"), "{1}; x");
    assert_eq!(failure("{ 1 } + 2").0, "Unexpected token `+`");
    assert_eq!(failure("if a { 1 } + 2").0, "Unexpected token `+`");
    assert_eq!(failure("1 + { 2").0, "Expected `}`, found `\0`");
}
