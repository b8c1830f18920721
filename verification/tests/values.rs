use func::common::ast::{BlockExpression, FunctionStatement};
use func::common::error::{Error, ErrorType};
use func::common::number::{number_equal, number_is_nan, number_less, number_less_or_equal};
use func::common::object::{Meta, Object};
use func::common::position::Position;
use func::common::text::{
    char_continues_word, char_is_digit, char_is_whitespace, char_starts_word, decimal_text,
    from_chars, to_chars, trim, unescape, Fragment,
};
use func::common::token::{Token, TokenType};
use func::runtime::environment::{FunctionBindings, VariableBindings};

fn number(value: f64) -> Object {
    Object::Number(value.to_bits(), Meta::default())
}

fn string(text: &str) -> Object {
    Object::String(text.to_string(), Meta::default())
}

fn array(items: Vec<Object>) -> Object {
    Object::Array(items, Meta::default())
}

fn here() -> Position {
    Position::new("values".to_string(), 4)
}

fn name(lexeme: &str) -> Token {
    Token::new(TokenType::Identifier, lexeme.to_string(), None, here())
}

fn render(fragments: &[Fragment]) -> String {
    let mut text = String::new();
    for fragment in fragments {
        match fragment {
            Fragment::Text(piece) => text.push_str(piece),
            Fragment::Number(bits) => text.push_str(&format!("{}", f64::from_bits(*bits))),
        }
    }
    text
}

fn samples() -> Vec<f64> {
    vec![
        0.0,
        -0.0,
        1.0,
        -1.0,
        0.5,
        -0.5,
        7.0,
        1e300,
        -1e300,
        5e-324,
        -5e-324,
        f64::MAX,
        f64::MIN,
        f64::MIN_POSITIVE,
        f64::INFINITY,
        f64::NEG_INFINITY,
        f64::NAN,
        -f64::NAN,
        f64::from_bits(0x7FF0_0000_0000_0001),
        f64::from_bits(0xFFFF_FFFF_FFFF_FFFF),
    ]
}

#[test]
fn comparisons_agree_with_doubles() {
    for a in samples() {
        assert_eq!(number_is_nan(a.to_bits()), a.is_nan());
        for b in samples() {
            assert_eq!(number_equal(a.to_bits(), b.to_bits()), a == b, "{} == {}", a, b);
            assert_eq!(number_less(a.to_bits(), b.to_bits()), a < b, "{} < {}", a, b);
            assert_eq!(number_less_or_equal(a.to_bits(), b.to_bits()), a <= b, "{} <= {}", a, b);
        }
    }
}

#[test]
fn minus_one_is_the_pattern_of_minus_one() {
    assert_eq!(func::common::number::MINUS_ONE, (-1.0f64).to_bits());
    assert_eq!(func::common::number::INFINITY, f64::INFINITY.to_bits());
    assert_eq!(func::common::number::SIGN_BIT, (-0.0f64).to_bits());
}

#[test]
fn characters_round_trip() {
    let chars = to_chars("a\u{e9}\u{4e2d}z");
    assert_eq!(chars, vec!['a', '\u{e9}', '\u{4e2d}', 'z']);
    assert_eq!(from_chars(&chars, 1, 3), "\u{e9}\u{4e2d}");
    assert_eq!(from_chars(&chars, 0, 4), "a\u{e9}\u{4e2d}z");
    assert_eq!(from_chars(&chars, 2, 2), "");
}

#[test]
fn trim_agrees_with_the_standard_library() {
    for line in [
        "",
        " ",
        "hello",
        "  hello world \n",
        "\t\r\n x \u{a0}\u{2003}",
        "\u{3000}a\u{85}",
        "\u{200b}a\u{200b}",
        "a b",
        "\u{1680}\u{2028}\u{2029}\u{202f}\u{205f}",
        "\u{180e}x",
    ] {
        assert_eq!(trim(line), line.trim(), "{:?}", line);
    }
}

#[test]
fn unescape_turns_backslash_n_into_a_line_feed() {
    assert_eq!(unescape("a\\nb"), "a\nb");
    assert_eq!(unescape("\\n\\n"), "\n\n");
    assert_eq!(unescape("\\\\n"), "\\\n");
    assert_eq!(unescape("a\\"), "a\\");
    assert_eq!(unescape("\\t n"), "\\t n");
    assert_eq!(unescape(""), "");
    for text in ["x\\ny\\", "\\\\\\n", "n\\n\\nn", "plain"] {
        assert_eq!(unescape(text), text.replace("\\n", "\n"));
    }
}

#[test]
fn decimal_text_writes_counts() {
    assert_eq!(decimal_text(0), "0");
    assert_eq!(decimal_text(7), "7");
    assert_eq!(decimal_text(10), "10");
    assert_eq!(decimal_text(1905), "1905");
    assert_eq!(decimal_text(usize::MAX), usize::MAX.to_string());
}

#[test]
fn truthiness() {
    assert!(Object::Boolean(true, Meta::default()).is_truthy());
    assert!(!Object::Boolean(false, Meta::default()).is_truthy());
    assert!(!Object::Nil(Meta::default()).is_truthy());
    assert!(number(0.0).is_truthy());
    assert!(string("").is_truthy());
    assert!(array(vec![]).is_truthy());
}

#[test]
fn return_mark() {
    let mut value = number(1.0);
    assert!(!value.is_return());
    assert!(!value.meta().is_return);
    value.set_return();
    assert!(value.is_return());
    assert!(value.meta().is_return);
    assert!(matches!(value, Object::Number(_, Meta { is_return: true })));
    value.clear_return();
    assert!(!value.is_return());
    let mut list = array(vec![number(1.0)]);
    list.set_return();
    assert!(list.is_return());
    assert!(matches!(list, Object::Array(_, Meta { is_return: true })));
}

#[test]
fn equality_is_structural() {
    assert!(number(1.0) == number(1.0));
    assert!(number(0.0) == number(-0.0));
    assert!(number(f64::NAN) != number(f64::NAN));
    assert!(number(1.0) != string("1"));
    assert!(string("a") == string("a"));
    assert!(string("a") != string("b"));
    assert!(Object::Nil(Meta::default()) == Object::Nil(Meta::default()));
    assert!(Object::Nil(Meta::default()) != Object::Boolean(false, Meta::default()));
    assert!(array(vec![number(1.0), string("x")]) == array(vec![number(1.0), string("x")]));
    assert!(array(vec![number(1.0)]) != array(vec![number(1.0), number(2.0)]));
    assert!(array(vec![number(1.0)]) != array(vec![number(2.0)]));
    assert!(array(vec![array(vec![])]) == array(vec![array(vec![])]));
    let marked = Meta { is_return: true };
    assert!(Object::Boolean(true, marked) == Object::Boolean(true, Meta::default()));
    assert!(Object::Number(1.0f64.to_bits(), marked) == number(1.0));
    assert!(Object::Number(1.0f64.to_bits(), marked) != number(2.0));
    assert!(Object::String("a".to_string(), marked) == string("a"));
    assert!(Object::Nil(marked) == Object::Nil(Meta::default()));
    assert!(Object::Nil(marked) != Object::Boolean(false, marked));
    assert!(
        Object::Array(vec![Object::Number(1.0f64.to_bits(), marked)], marked)
            == array(vec![number(1.0)])
    );
    let copy = array(vec![number(3.0), array(vec![string("deep")])]).clone();
    assert!(copy == array(vec![number(3.0), array(vec![string("deep")])]));
}

#[test]
fn push_appends_and_returns_the_new_array() {
    let mut list = array(vec![number(1.0)]);
    let grown = list.push(number(2.0), here()).unwrap();
    assert!(grown == array(vec![number(1.0), number(2.0)]));
    assert!(list == array(vec![number(1.0), number(2.0)]));
}

#[test]
fn push_then_pop_restores_the_array() {
    let mut list = array(vec![number(1.0), number(2.0), number(3.0)]);
    let mut grown = list.push(number(4.0), here()).unwrap();
    let back = grown.pop(here()).unwrap();
    assert!(back == array(vec![number(1.0), number(2.0), number(3.0)]));
}

#[test]
fn pop_of_an_empty_array_is_no_error() {
    let mut list = array(vec![]);
    let same = list.pop(here()).unwrap();
    assert!(same == array(vec![]));
    let mut one = array(vec![string("x")]);
    assert!(one.pop(here()).unwrap() == array(vec![]));
}

fn assert_runtime_error(error: &Error, message: &str) {
    assert_eq!(error.e_type, ErrorType::RuntimeError);
    assert_eq!(render(&error.message), message);
    assert_eq!(error.position.row, 4);
    assert_eq!(error.position.source_path, "values");
}

#[test]
fn push_and_pop_need_an_array() {
    let mut value = number(1.5);
    let error = value.push(number(2.0), here()).unwrap_err();
    assert_runtime_error(&error, "`1.5` does not have `push` method associated with it");
    assert!(value == number(1.5));
    let error = string("a\\nb").pop(here()).unwrap_err();
    assert_runtime_error(&error, "`a\nb` does not have `push` method associated with it");
    let error = Object::Nil(Meta::default()).push(number(2.0), here()).unwrap_err();
    assert_runtime_error(&error, "`nil` does not have `push` method associated with it");
    let error = Object::Boolean(true, Meta::default()).pop(here()).unwrap_err();
    assert_runtime_error(&error, "`true` does not have `push` method associated with it");
}

#[test]
fn display_forms() {
    assert_eq!(render(&number(7.0).display()), "7");
    assert_eq!(render(&number(0.5).display()), "0.5");
    assert_eq!(render(&string("a\\nb").display()), "a\nb");
    assert_eq!(render(&Object::Boolean(true, Meta::default()).display()), "true");
    assert_eq!(render(&Object::Boolean(false, Meta::default()).display()), "false");
    assert_eq!(render(&Object::Nil(Meta::default()).display()), "nil");
    assert_eq!(render(&array(vec![]).display()), "[]");
    assert_eq!(
        render(&array(vec![number(1.0), string("x"), array(vec![number(2.5)])]).display()),
        "[1,x,[2.5,],]"
    );
}

#[test]
fn error_kinds_and_token_kinds_have_names() {
    assert_eq!(ErrorType::LexingError.to_text(), "LexingError");
    assert_eq!(ErrorType::ParsingError.to_text(), "ParsingError");
    assert_eq!(ErrorType::RuntimeError.to_text(), "RuntimeError");
    assert_eq!(TokenType::Identifier.to_text(), "identifier");
    assert_eq!(TokenType::GreaterEqual.to_text(), ">=");
    assert_eq!(TokenType::OpenCurly.to_text(), "{");
    assert_eq!(TokenType::Return.to_text(), "return");
    assert_eq!(TokenType::EOF.to_text(), "\0");
    let error = Error::new(ErrorType::ParsingError, "what".to_string(), here());
    assert_eq!(error.e_type, ErrorType::ParsingError);
    assert_eq!(render(&error.message), "what");
    assert_eq!(error.position.row, 4);
}

#[test]
fn variables_declare_get_assign() {
    let mut variables = VariableBindings::new();
    let error = variables.get(name("x")).unwrap_err();
    assert_runtime_error(&error, "Variable `x` doesn't exist.");
    let error = variables.assign(name("x"), number(1.0)).unwrap_err();
    assert_runtime_error(&error, "Variable `x` doesn't exist.");
    assert!(!variables.contains(&name("x")));
    variables.declare(name("x"), number(1.0));
    assert!(variables.contains(&name("x")));
    assert!(variables.get(name("x")).unwrap() == number(1.0));
    variables.declare(name("x"), string("again"));
    assert!(variables.get(name("x")).unwrap() == string("again"));
    variables.assign(name("x"), number(3.0)).unwrap();
    assert!(variables.get(name("x")).unwrap() == number(3.0));
    variables.declare(name("y"), number(4.0));
    let snapshot = variables.clone();
    variables.assign(name("x"), number(5.0)).unwrap();
    variables.declare(name("z"), number(6.0));
    assert!(snapshot.get(name("x")).unwrap() == number(3.0));
    assert!(snapshot.get(name("y")).unwrap() == number(4.0));
    assert!(snapshot.get(name("z")).is_err());
    assert!(variables.get(name("x")).unwrap() == number(5.0));
}

#[test]
fn functions_put_get() {
    let mut functions = FunctionBindings::new();
    let error = functions.get(name("f")).unwrap_err();
    assert_runtime_error(&error, "Function `f` doesn't exist.");
    let first = FunctionStatement::new(name("f"), vec![name("a")], BlockExpression::new(vec![]), false);
    functions.put(name("f"), first);
    assert_eq!(functions.get(name("f")).unwrap().paramiters.len(), 1);
    let second = FunctionStatement::new(
        name("f"),
        vec![name("a"), name("b")],
        BlockExpression::new(vec![]),
        false,
    );
    functions.put(name("f"), second);
    let found = functions.get(name("f")).unwrap();
    assert_eq!(found.paramiters.len(), 2);
    assert_eq!(found.identifier.lexeme, "f");
    assert!(!found.is_builtin);
}

#[test]
fn character_classes_agree_with_the_standard_library() {
    for code in 0..=0x10FFFFu32 {
        if let Some(c) = char::from_u32(code) {
            assert_eq!(char_is_whitespace(c), c.is_whitespace(), "{:?}", c);
            assert_eq!(char_is_digit(c), c.is_ascii_digit(), "{:?}", c);
            assert_eq!(char_starts_word(c), c.is_ascii_alphabetic() || c == '_', "{:?}", c);
            assert_eq!(char_continues_word(c), c.is_ascii_alphanumeric() || c == '_', "{:?}", c);
        }
    }
}

#[test]
fn comparisons_agree_with_doubles_on_many_patterns() {
    let mut state: u64 = 0x9E37_79B9_7F4A_7C15;
    let mut next = move || {
        state = state.wrapping_mul(6364136223846793005).wrapping_add(1442695040888963407);
        let high = state;
        state = state.wrapping_mul(6364136223846793005).wrapping_add(1442695040888963407);
        (high & 0xFFFF_FFFF_0000_0000) | (state >> 32)
    };
    for round in 0..200_000 {
        let a = next();
        let mut b = next();
        if round % 4 == 0 {
            b = a ^ (1 << (round % 64));
        }
        if round % 7 == 0 {
            b = a;
        }
        let (x, y) = (f64::from_bits(a), f64::from_bits(b));
        assert_eq!(number_is_nan(a), x.is_nan());
        assert_eq!(number_equal(a, b), x == y, "{:x} == {:x}", a, b);
        assert_eq!(number_less(a, b), x < y, "{:x} < {:x}", a, b);
        assert_eq!(number_less_or_equal(a, b), x <= y, "{:x} <= {:x}", a, b);
    }
}
