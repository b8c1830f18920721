use func::common::error::ErrorType;
use func::common::object::{Meta, Object};
use func::common::text::Fragment;
use func::common::token::{Token, TokenType};
use func::frontend::lexer::Lexer;

fn kinds(tokens: &[Token]) -> Vec<TokenType> {
    tokens.iter().map(|token| token.ttype).collect()
}

fn lex(source: &str) -> Vec<Token> {
    Lexer::new("test".to_string(), source).lex().unwrap()
}

#[test]
fn lexes_a_declaration() {
    let tokens = lex("let x = 1 + 2 * 3");
    assert_eq!(
        kinds(&tokens),
        vec![
            TokenType::Let,
            TokenType::Identifier,
            TokenType::Equal,
            TokenType::Number,
            TokenType::Plus,
            TokenType::Number,
            TokenType::Star,
            TokenType::Number,
            TokenType::EOF,
        ]
    );
    assert_eq!(tokens[1].lexeme, "x");
    assert_eq!(tokens[3].lexeme, "1");
    assert!(tokens[3].literal.is_none());
    assert_eq!(tokens[8].lexeme, "");
    assert_eq!(tokens[0].position.row, 1);
    assert_eq!(tokens[0].position.source_path, "test");
}

#[test]
fn lexes_keywords_and_literals() {
    let tokens = lex("func if else return read write push pop true false nil name _n1 \"a b\" 12.5 7.");
    assert_eq!(
        kinds(&tokens),
        vec![
            TokenType::Func,
            TokenType::If,
            TokenType::Else,
            TokenType::Return,
            TokenType::Read,
            TokenType::Write,
            TokenType::Push,
            TokenType::Pop,
            TokenType::Boolean,
            TokenType::Boolean,
            TokenType::Nil,
            TokenType::Identifier,
            TokenType::Identifier,
            TokenType::String,
            TokenType::Number,
            TokenType::Number,
            TokenType::EOF,
        ]
    );
    assert!(tokens[8].literal == Some(Object::Boolean(true, Meta::default())));
    assert!(tokens[9].literal == Some(Object::Boolean(false, Meta::default())));
    assert!(tokens[10].literal.is_none());
    assert_eq!(tokens[13].lexeme, "\"a b\"");
    assert!(tokens[13].literal == Some(Object::String("a b".to_string(), Meta::default())));
    assert_eq!(tokens[14].lexeme, "12.5");
    assert_eq!(tokens[15].lexeme, "7.");
}

#[test]
fn lexes_operators_and_comments() {
    let tokens = lex("== != >= <= && || = ! > < / // the rest , ( \n ) [ ] { } % - ,");
    assert_eq!(
        kinds(&tokens),
        vec![
            TokenType::EqualEqual,
            TokenType::NotEqual,
            TokenType::GreaterEqual,
            TokenType::LessEqual,
            TokenType::And,
            TokenType::Or,
            TokenType::Equal,
            TokenType::Not,
            TokenType::Greater,
            TokenType::Less,
            TokenType::Slash,
            TokenType::CloseParen,
            TokenType::OpenBrack,
            TokenType::CloseBrack,
            TokenType::OpenCurly,
            TokenType::CloseCurly,
            TokenType::Modulo,
            TokenType::Minus,
            TokenType::Comma,
            TokenType::EOF,
        ]
    );
    assert_eq!(tokens[10].position.row, 1);
    assert_eq!(tokens[11].position.row, 2);
}

#[test]
fn unterminated_string_is_a_lexing_error_at_its_row() {
    let error = Lexer::new("file".to_string(), "let a = 1\nlet b = 2\nlet s = \"abc")
        .lex()
        .unwrap_err();
    assert_eq!(error.e_type, ErrorType::LexingError);
    assert_eq!(error.position.row, 3);
    assert_eq!(error.position.source_path, "file");
    assert_eq!(error.message.len(), 1);
    match &error.message[0] {
        Fragment::Text(text) => assert_eq!(text, "Unterminated string"),
        Fragment::Number(_) => panic!("a number in a lexing error"),
    }
}

#[test]
fn unexpected_character_is_a_lexing_error() {
    let error = Lexer::new("file".to_string(), "let a = 1 # 2").lex().unwrap_err();
    assert_eq!(error.e_type, ErrorType::LexingError);
    match &error.message[0] {
        Fragment::Text(text) => assert_eq!(text, "Unexpected charected `#`"),
        Fragment::Number(_) => panic!("a number in a lexing error"),
    }
    let error = Lexer::new("file".to_string(), "a & b").lex().unwrap_err();
    match &error.message[0] {
        Fragment::Text(text) => assert_eq!(text, "Unexpected charected `&`"),
        Fragment::Number(_) => panic!("a number in a lexing error"),
    }
}
