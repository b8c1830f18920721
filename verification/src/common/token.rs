//! Lexical units.

use super::object::{Object, ObjectView};
use super::position::{Position, PositionView};
use vstd::prelude::*;

verus! {

/// The kind of a token.
#[derive(Clone, Copy, Debug, PartialEq, Eq, Structural)]
pub enum TokenType {
    Identifier,
    Number,
    String,
    Boolean,
    Nil,
    Plus,
    Minus,
    Star,
    Slash,
    Modulo,
    Equal,
    EqualEqual,
    Not,
    NotEqual,
    Greater,
    GreaterEqual,
    Less,
    LessEqual,
    And,
    Or,
    Comma,
    OpenParen,
    CloseParen,
    OpenBrack,
    CloseBrack,
    OpenCurly,
    CloseCurly,
    Let,
    Func,
    If,
    Else,
    Return,
    Read,
    Write,
    Push,
    Pop,
    EOF,
}

impl TokenType {
    /// How a kind is named in a message: a class of tokens by its name, a fixed
    /// token by its spelling, the end of input by a NUL character.
    pub open spec fn name(self) -> Seq<char> {
        match self {
            TokenType::Identifier => "identifier"@,
            TokenType::Number => "number"@,
            TokenType::String => "string"@,
            TokenType::Boolean => "boolean"@,
            TokenType::Nil => "nil"@,
            TokenType::Plus => "+"@,
            TokenType::Minus => "-"@,
            TokenType::Star => "*"@,
            TokenType::Slash => "/"@,
            TokenType::Modulo => "%"@,
            TokenType::Equal => "="@,
            TokenType::EqualEqual => "=="@,
            TokenType::Not => "!"@,
            TokenType::NotEqual => "!="@,
            TokenType::Greater => ">"@,
            TokenType::GreaterEqual => ">="@,
            TokenType::Less => "<"@,
            TokenType::LessEqual => "<="@,
            TokenType::And => "&&"@,
            TokenType::Or => "||"@,
            TokenType::Comma => ","@,
            TokenType::OpenParen => "("@,
            TokenType::CloseParen => ")"@,
            TokenType::OpenBrack => "["@,
            TokenType::CloseBrack => "]"@,
            TokenType::OpenCurly => "{"@,
            TokenType::CloseCurly => "}"@,
            TokenType::Let => "let"@,
            TokenType::Func => "func"@,
            TokenType::If => "if"@,
            TokenType::Else => "else"@,
            TokenType::Return => "return"@,
            TokenType::Read => "read"@,
            TokenType::Write => "write"@,
            TokenType::Push => "push"@,
            TokenType::Pop => "pop"@,
            TokenType::EOF => "\0"@,
        }
    }

    /// How the kind is named in a message.
    pub fn to_text(&self) -> (text: String)
        ensures
            text@ == self.name(),
    {
        match self {
            TokenType::Identifier => "identifier".to_owned(),
            TokenType::Number => "number".to_owned(),
            TokenType::String => "string".to_owned(),
            TokenType::Boolean => "boolean".to_owned(),
            TokenType::Nil => "nil".to_owned(),
            TokenType::Plus => "+".to_owned(),
            TokenType::Minus => "-".to_owned(),
            TokenType::Star => "*".to_owned(),
            TokenType::Slash => "/".to_owned(),
            TokenType::Modulo => "%".to_owned(),
            TokenType::Equal => "=".to_owned(),
            TokenType::EqualEqual => "==".to_owned(),
            TokenType::Not => "!".to_owned(),
            TokenType::NotEqual => "!=".to_owned(),
            TokenType::Greater => ">".to_owned(),
            TokenType::GreaterEqual => ">=".to_owned(),
            TokenType::Less => "<".to_owned(),
            TokenType::LessEqual => "<=".to_owned(),
            TokenType::And => "&&".to_owned(),
            TokenType::Or => "||".to_owned(),
            TokenType::Comma => ",".to_owned(),
            TokenType::OpenParen => "(".to_owned(),
            TokenType::CloseParen => ")".to_owned(),
            TokenType::OpenBrack => "[".to_owned(),
            TokenType::CloseBrack => "]".to_owned(),
            TokenType::OpenCurly => "{".to_owned(),
            TokenType::CloseCurly => "}".to_owned(),
            TokenType::Let => "let".to_owned(),
            TokenType::Func => "func".to_owned(),
            TokenType::If => "if".to_owned(),
            TokenType::Else => "else".to_owned(),
            TokenType::Return => "return".to_owned(),
            TokenType::Read => "read".to_owned(),
            TokenType::Write => "write".to_owned(),
            TokenType::Push => "push".to_owned(),
            TokenType::Pop => "pop".to_owned(),
            TokenType::EOF => "\0".to_owned(),
        }
    }
}

/// A lexical unit: its kind, the characters it was read from, the value of a
/// string or boolean literal, and where it stands. A number token has no value
/// of its own: its digits are in the lexeme.
#[derive(Debug)]
pub struct Token {
    pub ttype: TokenType,
    pub lexeme: String,
    pub literal: Option<Object>,
    pub position: Position,
}

/// The mathematical value of a [`Token`].
pub struct TokenView {
    pub ttype: TokenType,
    pub lexeme: Seq<char>,
    pub literal: Option<ObjectView>,
    pub position: PositionView,
}

/// The value of an optional object.
pub open spec fn literal_view(literal: Option<Object>) -> Option<ObjectView> {
    match literal {
        Some(object) => Some(object@),
        None => None,
    }
}

/// The values of a sequence of tokens.
pub open spec fn tokens_view(tokens: Seq<Token>) -> Seq<TokenView> {
    Seq::new(tokens.len(), |i: int| tokens[i]@)
}

impl View for Token {
    type V = TokenView;

    open spec fn view(&self) -> TokenView {
        TokenView {
            ttype: self.ttype,
            lexeme: self.lexeme@,
            literal: literal_view(self.literal),
            position: self.position@,
        }
    }
}

impl Token {
    pub fn new(ttype: TokenType, lexeme: String, literal: Option<Object>, position: Position) -> (token:
        Self)
        ensures
            token@ == (TokenView {
                ttype,
                lexeme: lexeme@,
                literal: literal_view(literal),
                position: position@,
            }),
    {
        Self { ttype, lexeme, literal, position }
    }
}

impl Clone for Token {
    fn clone(&self) -> (copy: Self)
        ensures
            copy@ == self@,
    {
        let literal = match &self.literal {
            Some(object) => Some(object.clone()),
            None => None,
        };
        Self {
            ttype: self.ttype,
            lexeme: self.lexeme.clone(),
            literal,
            position: self.position.clone(),
        }
    }
}

/// A copy of a list of tokens.
pub fn clone_tokens(tokens: &Vec<Token>) -> (copy: Vec<Token>)
    ensures
        tokens_view(copy@) == tokens_view(tokens@),
{
    let mut copy: Vec<Token> = Vec::new();
    let mut i: usize = 0;
    while i < tokens.len()
        invariant
            i <= tokens.len(),
            copy.len() == i,
            forall|j: int| 0 <= j < i ==> copy[j]@ == tokens[j]@,
        decreases tokens.len() - i,
    {
        copy.push(tokens[i].clone());
        i += 1;
    }
    assert(tokens_view(copy@) =~= tokens_view(tokens@));
    copy
}

} // verus!
