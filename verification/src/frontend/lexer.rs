//! The scanner: from characters to tokens.

use crate::common::error::{Error, ErrorType, ErrorView};
use crate::common::object::{Meta, Object, ObjectView};
use crate::common::position::{Position, PositionView};
use crate::common::text::{
    char_continues_word, char_is_digit, char_starts_word, continues_word, from_chars, is_digit,
    plain, starts_word, to_chars,
};
use crate::common::token::{literal_view, tokens_view, Token, TokenType, TokenView};
use vstd::prelude::*;

verus! {

/// What one scan at some offset found.
pub enum Scanned {
    /// A token of this kind, with the value of a string or boolean literal.
    Token(TokenType, Option<Object>),
    /// White space within a line, or a comment.
    Blank,
    /// A line feed: the next token stands one row further down.
    Newline,
    /// Nothing that the language knows: the message of the error.
    Failure(String),
}

/// The mathematical value of a [`Scanned`].
pub enum ScannedView {
    Token(TokenType, Option<ObjectView>),
    Blank,
    Newline,
    Failure(Seq<char>),
}

impl View for Scanned {
    type V = ScannedView;

    open spec fn view(&self) -> ScannedView {
        match self {
            Scanned::Token(ttype, literal) => ScannedView::Token(*ttype, literal_view(*literal)),
            Scanned::Blank => ScannedView::Blank,
            Scanned::Newline => ScannedView::Newline,
            Scanned::Failure(message) => ScannedView::Failure(message@),
        }
    }
}

/// The character at `i`, or NUL past the end.
pub open spec fn char_at(source: Seq<char>, i: int) -> char {
    if 0 <= i < source.len() {
        source[i]
    } else {
        '\0'
    }
}

/// The first offset at or after `i` whose character cannot continue a name.
pub open spec fn word_end(source: Seq<char>, i: int) -> int
    decreases source.len() - i,
{
    if 0 <= i < source.len() && continues_word(source[i]) {
        word_end(source, i + 1)
    } else {
        i
    }
}

/// The first offset at or after `i` whose character is no digit.
pub open spec fn digits_end(source: Seq<char>, i: int) -> int
    decreases source.len() - i,
{
    if 0 <= i < source.len() && is_digit(source[i]) {
        digits_end(source, i + 1)
    } else {
        i
    }
}

/// Where a number that has digits up to `i` ends: after the digits that follow,
/// and, if a point comes next, after the point and the digits behind it.
pub open spec fn number_end(source: Seq<char>, i: int) -> int {
    let whole = digits_end(source, i);
    if char_at(source, whole) == '.' {
        digits_end(source, whole + 1)
    } else {
        whole
    }
}

/// The first offset at or after `i` that holds a line feed, or the length.
pub open spec fn comment_end(source: Seq<char>, i: int) -> int
    decreases source.len() - i,
{
    if 0 <= i < source.len() && source[i] != '\n' {
        comment_end(source, i + 1)
    } else {
        i
    }
}

/// The first offset at or after `i` that holds a double quote or a NUL, or the length.
pub open spec fn string_stop(source: Seq<char>, i: int) -> int
    decreases source.len() - i,
{
    if 0 <= i < source.len() && source[i] != '"' && source[i] != '\0' {
        string_stop(source, i + 1)
    } else {
        i
    }
}

/// The message for a character that starts no token.
pub open spec fn unexpected_character(c: char) -> Seq<char> {
    "Unexpected charected `"@ + seq![c] + "`"@
}

/// The kind and literal value of a word: a keyword, a boolean, or else a name.
pub open spec fn word_token(word: Seq<char>) -> ScannedView {
    if word == "let"@ {
        ScannedView::Token(TokenType::Let, None)
    } else if word == "func"@ {
        ScannedView::Token(TokenType::Func, None)
    } else if word == "return"@ {
        ScannedView::Token(TokenType::Return, None)
    } else if word == "read"@ {
        ScannedView::Token(TokenType::Read, None)
    } else if word == "write"@ {
        ScannedView::Token(TokenType::Write, None)
    } else if word == "push"@ {
        ScannedView::Token(TokenType::Push, None)
    } else if word == "pop"@ {
        ScannedView::Token(TokenType::Pop, None)
    } else if word == "if"@ {
        ScannedView::Token(TokenType::If, None)
    } else if word == "else"@ {
        ScannedView::Token(TokenType::Else, None)
    } else if word == "true"@ {
        ScannedView::Token(
            TokenType::Boolean,
            Some(ObjectView::Boolean(true, Meta { is_return: false })),
        )
    } else if word == "false"@ {
        ScannedView::Token(
            TokenType::Boolean,
            Some(ObjectView::Boolean(false, Meta { is_return: false })),
        )
    } else if word == "nil"@ {
        ScannedView::Token(TokenType::Nil, None)
    } else {
        ScannedView::Token(TokenType::Identifier, None)
    }
}

/// A token of one character, or of two when `second` follows the first.
pub open spec fn one_or_two(
    source: Seq<char>,
    start: int,
    second: char,
    two: TokenType,
    one: TokenType,
) -> (int, ScannedView) {
    if char_at(source, start + 1) == second {
        (start + 2, ScannedView::Token(two, None))
    } else {
        (start + 1, ScannedView::Token(one, None))
    }
}

/// A token of two equal characters; one alone is an error.
pub open spec fn doubled(source: Seq<char>, start: int, two: TokenType) -> (int, ScannedView) {
    if char_at(source, start + 1) == source[start] {
        (start + 2, ScannedView::Token(two, None))
    } else {
        (start + 1, ScannedView::Failure(unexpected_character(source[start])))
    }
}

/// What stands at `start`, and the offset behind it.
pub open spec fn scan(source: Seq<char>, start: int) -> (int, ScannedView)
    recommends
        0 <= start < source.len(),
{
    let c = source[start];
    if c == ' ' || c == '\t' || c == '\r' {
        (start + 1, ScannedView::Blank)
    } else if c == '+' {
        (start + 1, ScannedView::Token(TokenType::Plus, None))
    } else if c == '-' {
        (start + 1, ScannedView::Token(TokenType::Minus, None))
    } else if c == '*' {
        (start + 1, ScannedView::Token(TokenType::Star, None))
    } else if c == '%' {
        (start + 1, ScannedView::Token(TokenType::Modulo, None))
    } else if c == ',' {
        (start + 1, ScannedView::Token(TokenType::Comma, None))
    } else if c == '(' {
        (start + 1, ScannedView::Token(TokenType::OpenParen, None))
    } else if c == ')' {
        (start + 1, ScannedView::Token(TokenType::CloseParen, None))
    } else if c == '[' {
        (start + 1, ScannedView::Token(TokenType::OpenBrack, None))
    } else if c == ']' {
        (start + 1, ScannedView::Token(TokenType::CloseBrack, None))
    } else if c == '{' {
        (start + 1, ScannedView::Token(TokenType::OpenCurly, None))
    } else if c == '}' {
        (start + 1, ScannedView::Token(TokenType::CloseCurly, None))
    } else if c == '\0' {
        (start + 1, ScannedView::Token(TokenType::EOF, None))
    } else if c == '"' {
        let stop = string_stop(source, start + 1);
        if char_at(source, stop) == '"' {
            (
                stop + 1,
                ScannedView::Token(
                    TokenType::String,
                    Some(
                        ObjectView::String(
                            source.subrange(start + 1, stop),
                            Meta { is_return: false },
                        ),
                    ),
                ),
            )
        } else {
            (stop, ScannedView::Failure("Unterminated string"@))
        }
    } else if c == '\n' {
        (start + 1, ScannedView::Newline)
    } else if c == '/' {
        if char_at(source, start + 1) == '/' {
            (comment_end(source, start + 2), ScannedView::Blank)
        } else {
            (start + 1, ScannedView::Token(TokenType::Slash, None))
        }
    } else if c == '=' {
        one_or_two(source, start, '=', TokenType::EqualEqual, TokenType::Equal)
    } else if c == '!' {
        one_or_two(source, start, '=', TokenType::NotEqual, TokenType::Not)
    } else if c == '>' {
        one_or_two(source, start, '=', TokenType::GreaterEqual, TokenType::Greater)
    } else if c == '<' {
        one_or_two(source, start, '=', TokenType::LessEqual, TokenType::Less)
    } else if c == '&' {
        doubled(source, start, TokenType::And)
    } else if c == '|' {
        doubled(source, start, TokenType::Or)
    } else if starts_word(c) {
        let end = word_end(source, start + 1);
        (end, word_token(source.subrange(start, end)))
    } else if is_digit(c) {
        (number_end(source, start + 1), ScannedView::Token(TokenType::Number, None))
    } else {
        (start + 1, ScannedView::Failure(unexpected_character(c)))
    }
}

/// What scanning from an offset and a row gives: the tokens or the first error,
/// and the offset and row at which scanning stopped.
pub struct Lexed {
    pub result: Result<Seq<TokenView>, ErrorView>,
    pub offset: int,
    pub row: nat,
}

/// The token read from `source[start..end]`.
pub open spec fn token_of(
    source: Seq<char>,
    path: Seq<char>,
    start: int,
    end: int,
    row: nat,
    ttype: TokenType,
    literal: Option<ObjectView>,
) -> TokenView {
    TokenView {
        ttype,
        lexeme: source.subrange(start, end),
        literal,
        position: PositionView { source_path: path, row },
    }
}

/// Scanning `source` from `start` on row `row`, after the tokens `found`: tokens
/// in source order with an end-of-input token behind them, or the error of the
/// first thing that is no token, where it stands.
pub open spec fn lex_from(
    source: Seq<char>,
    path: Seq<char>,
    start: int,
    row: nat,
    found: Seq<TokenView>,
) -> Lexed
    decreases source.len() - start,
{
    if start < 0 || start >= source.len() {
        Lexed {
            result: Ok(found.push(token_of(source, path, start, start, row, TokenType::EOF, None))),
            offset: start,
            row,
        }
    } else {
        proof {
            lemma_scan_advances(source, start);
        }
        let (end, scanned) = scan(source, start);
        match scanned {
            ScannedView::Token(ttype, literal) => lex_from(
                source,
                path,
                end,
                row,
                found.push(token_of(source, path, start, end, row, ttype, literal)),
            ),
            ScannedView::Blank => lex_from(source, path, end, row, found),
            ScannedView::Newline => lex_from(source, path, end, row + 1, found),
            ScannedView::Failure(message) => Lexed {
                result: Err(
                    ErrorView {
                        e_type: ErrorType::LexingError,
                        message: plain(message),
                        position: PositionView { source_path: path, row },
                    },
                ),
                offset: end,
                row,
            },
        }
    }
}

/// The tokens of a whole source text, or its first lexing error.
pub open spec fn lex_all(source: Seq<char>, path: Seq<char>) -> Result<Seq<TokenView>, ErrorView> {
    lex_from(source, path, 0, 1, Seq::empty()).result
}

/// Every scan moves on, and never past the end.
pub proof fn lemma_scan_advances(source: Seq<char>, start: int)
    requires
        0 <= start < source.len(),
    ensures
        start < scan(source, start).0 <= source.len(),
{
    lemma_run_bounds(source, start + 1);
    if start + 2 <= source.len() {
        lemma_run_bounds(source, start + 2);
    }
    let whole = digits_end(source, start + 1);
    if whole + 1 <= source.len() {
        lemma_run_bounds(source, whole + 1);
    }
}

/// The runs that the scanner follows end at or after their start, within the text.
pub proof fn lemma_run_bounds(source: Seq<char>, i: int)
    requires
        0 <= i <= source.len(),
    ensures
        i <= word_end(source, i) <= source.len(),
        i <= digits_end(source, i) <= source.len(),
        i <= comment_end(source, i) <= source.len(),
        i <= string_stop(source, i) <= source.len(),
    decreases source.len() - i,
{
    if i < source.len() {
        lemma_run_bounds(source, i + 1);
    }
}

/// A scanner over one source text. It remembers how far it has read and on
/// which row it stands.
pub struct Lexer {
    source: Vec<char>,
    current: usize,
    current_position: Position,
}

impl Lexer {
    #[verifier::type_invariant]
    spec fn well_formed(&self) -> bool {
        &&& self.current <= self.source.len()
        &&& self.current_position.row <= self.current + 1
        &&& self.source.len() < usize::MAX
    }

    /// The characters of the source text.
    pub closed spec fn source(&self) -> Seq<char> {
        self.source@
    }

    /// The path under which the source is reported.
    pub closed spec fn path(&self) -> Seq<char> {
        self.current_position.source_path@
    }

    /// How many characters have been read.
    pub closed spec fn offset(&self) -> int {
        self.current as int
    }

    /// The row of the next character, counted from 1.
    pub closed spec fn row(&self) -> nat {
        self.current_position.row as nat
    }

    /// A scanner at the start of `source`, on row 1.
    pub fn new(source_path: String, source: &str) -> (lexer: Self)
        requires
            source@.len() < usize::MAX,
        ensures
            lexer.source() == source@,
            lexer.path() == source_path@,
            lexer.offset() == 0,
            lexer.row() == 1,
    {
        Self { source: to_chars(source), current: 0, current_position: Position::new(source_path, 1) }
    }

    /// Reads on to the end of the source. Gives the tokens in source order, closed
    /// by an end-of-input token, or the error of the first thing that is no token.
    pub fn lex(&mut self) -> (result: Result<Vec<Token>, Error>)
        ensures
            final(self).source() == old(self).source(),
            final(self).path() == old(self).path(),
            ({
                let lexed = lex_from(
                    old(self).source(),
                    old(self).path(),
                    old(self).offset(),
                    old(self).row(),
                    Seq::empty(),
                );
                &&& final(self).offset() == lexed.offset
                &&& final(self).row() == lexed.row
                &&& match result {
                    Ok(tokens) => lexed.result == Ok::<Seq<TokenView>, ErrorView>(
                        tokens_view(tokens@),
                    ),
                    Err(error) => lexed.result == Err::<Seq<TokenView>, ErrorView>(error@),
                }
            }),
            result is Ok ==> crate::frontend::grammar::ends_with_eof(
                tokens_view(result->Ok_0@),
            ),
    {
        proof {
            use_type_invariant(&*self);
        }
        let mut tokens: Vec<Token> = Vec::new();
        let mut current: usize = self.current;
        let mut row: usize = self.current_position.row;
        assert(tokens_view(tokens@) =~= Seq::<TokenView>::empty());
        while current < self.source.len()
            invariant
                current <= self.source.len(),
                row <= current + 1,
                self.source.len() < usize::MAX,
                *self == *old(self),
                self.current <= current,
                self.current_position.row <= self.current + 1,
                lex_from(
                    self.source@,
                    self.current_position.source_path@,
                    old(self).current as int,
                    old(self).current_position.row as nat,
                    Seq::empty(),
                ) == lex_from(
                    self.source@,
                    self.current_position.source_path@,
                    current as int,
                    row as nat,
                    tokens_view(tokens@),
                ),
            decreases self.source.len() - current,
        {
            let (end, scanned) = Self::next_token(&self.source, current);
            let ghost found = tokens_view(tokens@);
            match scanned {
                Scanned::Token(ttype, literal) => {
                    let lexeme = from_chars(&self.source, current, end);
                    let position = Position::new(self.current_position.source_path.clone(), row);
                    tokens.push(Token::new(ttype, lexeme, literal, position));
                    assert(tokens_view(tokens@) =~= found.push(
                        token_of(
                            self.source@,
                            self.current_position.source_path@,
                            current as int,
                            end as int,
                            row as nat,
                            ttype,
                            literal_view(literal),
                        ),
                    ));
                },
                Scanned::Blank => {},
                Scanned::Newline => {
                    row += 1;
                },
                Scanned::Failure(message) => {
                    let position = Position::new(self.current_position.source_path.clone(), row);
                    self.current = end;
                    self.current_position.row = row;
                    return Err(Error::new(ErrorType::LexingError, message, position));
                },
            }
            current = end;
        }
        let ghost found = tokens_view(tokens@);
        let lexeme = from_chars(&self.source, current, current);
        let position = Position::new(self.current_position.source_path.clone(), row);
        tokens.push(Token::new(TokenType::EOF, lexeme, None, position));
        assert(tokens_view(tokens@) =~= found.push(
            token_of(
                self.source@,
                self.current_position.source_path@,
                current as int,
                current as int,
                row as nat,
                TokenType::EOF,
                None,
            ),
        ));
        self.current = current;
        self.current_position.row = row;
        proof {
            lemma_ends_with_eof(
                old(self).source(),
                old(self).path(),
                old(self).offset(),
                old(self).row(),
                Seq::empty(),
            );
        }
        Ok(tokens)
    }

    /// The character at `i`, or NUL past the end.
    fn peek(source: &Vec<char>, i: usize) -> (c: char)
        ensures
            c == char_at(source@, i as int),
    {
        if i < source.len() {
            source[i]
        } else {
            '\0'
        }
    }

    /// What stands at `start`, and the offset behind it.
    fn next_token(source: &Vec<char>, start: usize) -> (found: (usize, Scanned))
        requires
            start < source.len(),
        ensures
            (found.0 as int, found.1@) == scan(source@, start as int),
            start < found.0 <= source.len(),
    {
        proof {
            lemma_scan_advances(source@, start as int);
        }
        let c = source[start];
        if c == ' ' || c == '\t' || c == '\r' {
            (start + 1, Scanned::Blank)
        } else if c == '+' {
            (start + 1, Scanned::Token(TokenType::Plus, None))
        } else if c == '-' {
            (start + 1, Scanned::Token(TokenType::Minus, None))
        } else if c == '*' {
            (start + 1, Scanned::Token(TokenType::Star, None))
        } else if c == '%' {
            (start + 1, Scanned::Token(TokenType::Modulo, None))
        } else if c == ',' {
            (start + 1, Scanned::Token(TokenType::Comma, None))
        } else if c == '(' {
            (start + 1, Scanned::Token(TokenType::OpenParen, None))
        } else if c == ')' {
            (start + 1, Scanned::Token(TokenType::CloseParen, None))
        } else if c == '[' {
            (start + 1, Scanned::Token(TokenType::OpenBrack, None))
        } else if c == ']' {
            (start + 1, Scanned::Token(TokenType::CloseBrack, None))
        } else if c == '{' {
            (start + 1, Scanned::Token(TokenType::OpenCurly, None))
        } else if c == '}' {
            (start + 1, Scanned::Token(TokenType::CloseCurly, None))
        } else if c == '\0' {
            (start + 1, Scanned::Token(TokenType::EOF, None))
        } else if c == '"' {
            Self::make_string(source, start)
        } else if c == '\n' {
            (start + 1, Scanned::Newline)
        } else if c == '/' {
            if Self::peek(source, start + 1) == '/' {
                (Self::ignore_comment(source, start + 2), Scanned::Blank)
            } else {
                (start + 1, Scanned::Token(TokenType::Slash, None))
            }
        } else if c == '=' {
            Self::one_or_two(source, start, '=', TokenType::EqualEqual, TokenType::Equal)
        } else if c == '!' {
            Self::one_or_two(source, start, '=', TokenType::NotEqual, TokenType::Not)
        } else if c == '>' {
            Self::one_or_two(source, start, '=', TokenType::GreaterEqual, TokenType::Greater)
        } else if c == '<' {
            Self::one_or_two(source, start, '=', TokenType::LessEqual, TokenType::Less)
        } else if c == '&' {
            Self::doubled(source, start, TokenType::And)
        } else if c == '|' {
            Self::doubled(source, start, TokenType::Or)
        } else if char_starts_word(c) {
            Self::make_identifier(source, start)
        } else if char_is_digit(c) {
            (Self::make_number(source, start), Scanned::Token(TokenType::Number, None))
        } else {
            (start + 1, Scanned::Failure(Self::unexpected(c)))
        }
    }

    /// The message for a character that starts no token.
    fn unexpected(c: char) -> (message: String)
        ensures
            message@ == unexpected_character(c),
    {
        let mut message = "Unexpected charected `".to_owned();
        message.push(c);
        message.append("`");
        assert(message@ =~= unexpected_character(c));
        message
    }

    /// A token of one character, or of two when `second` follows the first.
    fn one_or_two(source: &Vec<char>, start: usize, second: char, two: TokenType, one: TokenType) -> (found:
        (usize, Scanned))
        requires
            start < source.len(),
            second != '\0',
        ensures
            (found.0 as int, found.1@) == self::one_or_two(source@, start as int, second, two, one),
    {
        if Self::peek(source, start + 1) == second {
            (start + 2, Scanned::Token(two, None))
        } else {
            (start + 1, Scanned::Token(one, None))
        }
    }

    /// A token of two equal characters; one alone is an error.
    fn doubled(source: &Vec<char>, start: usize, two: TokenType) -> (found: (usize, Scanned))
        requires
            start < source.len(),
            source[start as int] != '\0',
        ensures
            (found.0 as int, found.1@) == self::doubled(source@, start as int, two),
    {
        if Self::peek(source, start + 1) == source[start] {
            (start + 2, Scanned::Token(two, None))
        } else {
            (start + 1, Scanned::Failure(Self::unexpected(source[start])))
        }
    }

    /// The end of a comment whose text starts at `from`.
    fn ignore_comment(source: &Vec<char>, from: usize) -> (end: usize)
        requires
            from <= source.len(),
        ensures
            end == comment_end(source@, from as int),
            from <= end <= source.len(),
    {
        let mut i: usize = from;
        while i < source.len() && source[i] != '\n'
            invariant
                from <= i <= source.len(),
                comment_end(source@, from as int) == comment_end(source@, i as int),
            decreases source.len() - i,
        {
            i += 1;
        }
        i
    }

    /// A string literal that opens at `start`: its characters run up to the next
    /// double quote. Without one, or with a NUL before it, the string is not closed.
    fn make_string(source: &Vec<char>, start: usize) -> (found: (usize, Scanned))
        requires
            start < source.len(),
            source[start as int] == '"',
        ensures
            (found.0 as int, found.1@) == scan(source@, start as int),
    {
        let mut stop: usize = start + 1;
        while stop < source.len() && source[stop] != '"' && source[stop] != '\0'
            invariant
                start < stop <= source.len(),
                string_stop(source@, start + 1) == string_stop(source@, stop as int),
            decreases source.len() - stop,
        {
            stop += 1;
        }
        if Self::peek(source, stop) == '"' {
            let text = from_chars(source, start + 1, stop);
            (stop + 1, Scanned::Token(TokenType::String, Some(Object::String(text, Meta::default()))))
        } else {
            (stop, Scanned::Failure("Unterminated string".to_owned()))
        }
    }

    /// The end of a run of digits from `from`.
    fn digits(source: &Vec<char>, from: usize) -> (end: usize)
        requires
            from <= source.len(),
        ensures
            end == digits_end(source@, from as int),
            from <= end <= source.len(),
    {
        let mut i: usize = from;
        while i < source.len() && char_is_digit(source[i])
            invariant
                from <= i <= source.len(),
                digits_end(source@, from as int) == digits_end(source@, i as int),
            decreases source.len() - i,
        {
            i += 1;
        }
        i
    }

    /// The end of the number whose first digit stands at `start`.
    fn make_number(source: &Vec<char>, start: usize) -> (end: usize)
        requires
            start < source.len(),
        ensures
            end == number_end(source@, start + 1),
            start < end <= source.len(),
    {
        let whole = Self::digits(source, start + 1);
        if Self::peek(source, whole) == '.' {
            Self::digits(source, whole + 1)
        } else {
            whole
        }
    }

    /// The word that starts at `start`: a keyword, a boolean, or a name.
    fn make_identifier(source: &Vec<char>, start: usize) -> (found: (usize, Scanned))
        requires
            start < source.len(),
        ensures
            found.0 == word_end(source@, start + 1),
            found.1@ == word_token(source@.subrange(start as int, found.0 as int)),
            start < found.0 <= source.len(),
    {
        let mut end: usize = start + 1;
        while end < source.len() && char_continues_word(source[end])
            invariant
                start < end <= source.len(),
                word_end(source@, start + 1) == word_end(source@, end as int),
            decreases source.len() - end,
        {
            end += 1;
        }
        let word = from_chars(source, start, end);
        (end, Self::keyword(&word))
    }

    /// Whether `word` is spelled `spelling`.
    fn is(word: &String, spelling: &str) -> (same: bool)
        ensures
            same == (word@ == spelling@),
    {
        *word == spelling.to_owned()
    }

    /// The kind and literal value of a word.
    fn keyword(word: &String) -> (found: Scanned)
        ensures
            found@ == word_token(word@),
    {
        if Self::is(word, "let") {
            Scanned::Token(TokenType::Let, None)
        } else if Self::is(word, "func") {
            Scanned::Token(TokenType::Func, None)
        } else if Self::is(word, "return") {
            Scanned::Token(TokenType::Return, None)
        } else if Self::is(word, "read") {
            Scanned::Token(TokenType::Read, None)
        } else if Self::is(word, "write") {
            Scanned::Token(TokenType::Write, None)
        } else if Self::is(word, "push") {
            Scanned::Token(TokenType::Push, None)
        } else if Self::is(word, "pop") {
            Scanned::Token(TokenType::Pop, None)
        } else if Self::is(word, "if") {
            Scanned::Token(TokenType::If, None)
        } else if Self::is(word, "else") {
            Scanned::Token(TokenType::Else, None)
        } else if Self::is(word, "true") {
            Scanned::Token(TokenType::Boolean, Some(Object::Boolean(true, Meta::default())))
        } else if Self::is(word, "false") {
            Scanned::Token(TokenType::Boolean, Some(Object::Boolean(false, Meta::default())))
        } else if Self::is(word, "nil") {
            Scanned::Token(TokenType::Nil, None)
        } else {
            Scanned::Token(TokenType::Identifier, None)
        }
    }
}

/// A run that stops at the end of the text saw none of its stoppers.
proof fn lemma_string_stop_at_end(source: Seq<char>, i: int)
    requires
        0 <= i <= source.len(),
        forall|j: int| i <= j < source.len() ==> source[j] != '"' && source[j] != '\0',
    ensures
        string_stop(source, i) == source.len(),
    decreases source.len() - i,
{
    if i < source.len() {
        lemma_string_stop_at_end(source, i + 1);
    }
}

/// A string literal that is not closed before the end of the text is a lexing
/// error on the row where scanning stands, whatever came before: where a double
/// quote stands at `start` and neither a double quote nor a NUL follows it, the
/// result is the error "Unterminated string" at `row`.
pub proof fn lemma_unterminated_string(
    source: Seq<char>,
    path: Seq<char>,
    start: int,
    row: nat,
    found: Seq<TokenView>,
)
    requires
        0 <= start < source.len(),
        source[start] == '"',
        forall|j: int| start < j < source.len() ==> source[j] != '"' && source[j] != '\0',
    ensures
        lex_from(source, path, start, row, found).result == Err::<Seq<TokenView>, ErrorView>(
            ErrorView {
                e_type: ErrorType::LexingError,
                message: plain("Unterminated string"@),
                position: PositionView { source_path: path, row },
            },
        ),
{
    lemma_string_stop_at_end(source, start + 1);
}

/// What the scanner gives ends with an end-of-input token.
pub proof fn lemma_ends_with_eof(
    source: Seq<char>,
    path: Seq<char>,
    start: int,
    row: nat,
    found: Seq<TokenView>,
)
    ensures
        lex_from(source, path, start, row, found).result is Ok
            ==> crate::frontend::grammar::ends_with_eof(
            lex_from(source, path, start, row, found).result->Ok_0,
        ),
    decreases source.len() - start,
{
    if 0 <= start < source.len() {
        lemma_scan_advances(source, start);
        let (end, scanned) = scan(source, start);
        match scanned {
            ScannedView::Token(ttype, literal) => {
                lemma_ends_with_eof(
                    source,
                    path,
                    end,
                    row,
                    found.push(token_of(source, path, start, end, row, ttype, literal)),
                );
            },
            ScannedView::Blank => {
                lemma_ends_with_eof(source, path, end, row, found);
            },
            ScannedView::Newline => {
                lemma_ends_with_eof(source, path, end, row + 1, found);
            },
            ScannedView::Failure(_) => {},
        }
    }
}

} // verus!
