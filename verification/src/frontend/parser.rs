//! The parser: recursive descent over a token sequence, one function per rule
//! of the grammar.

use crate::common::ast::{
    else_view, expressions_view, statements_view, ArrayExpression, AssignmentStatement, BinaryExpression,
    BlockExpression, BuiltinFunction, BuiltinFunctionStatement, CallExpression, ElseBlock,
    Expression, FunctionStatement, GroupExpression, IdentifierExpression, IfExpression,
    LetStatement, LiteralExpression, Program, Statement, UnaryExpression,
};
use crate::common::error::{Error, ErrorType, ErrorView};
use crate::common::object::{Meta, Object};
use crate::common::token::{tokens_view, Token, TokenType, TokenView};
use crate::frontend::grammar;
use crate::frontend::grammar::{ends_with_eof, kind_at, Level, Parsed};
use vstd::prelude::*;

verus! {

/// The rule gives `value` and leaves off at `next`.
pub open spec fn gives<T>(wanted: Parsed<T>, value: T, next: int) -> bool {
    wanted == Ok::<(T, int), ErrorView>((value, next))
}

/// The rule fails with `error`.
pub open spec fn fails<T>(wanted: Parsed<T>, error: ErrorView) -> bool {
    wanted == Err::<(T, int), ErrorView>(error)
}

/// A parser over one token sequence. It remembers how far it has read.
pub struct Parser {
    tokens: Vec<Token>,
    current: usize,
}

impl Parser {
    #[verifier::type_invariant]
    spec fn well_formed(&self) -> bool {
        &&& ends_with_eof(tokens_view(self.tokens@))
        &&& self.current < self.tokens.len()
    }

    /// The tokens that are read.
    pub closed spec fn tokens(&self) -> Seq<TokenView> {
        tokens_view(self.tokens@)
    }

    /// How many tokens have been read.
    pub closed spec fn offset(&self) -> int {
        self.current as int
    }

    /// A parser at the start of `tokens`, which end with an end-of-input token.
    pub fn new(tokens: Vec<Token>) -> (parser: Self)
        requires
            ends_with_eof(tokens_view(tokens@)),
        ensures
            parser.tokens() == tokens_view(tokens@),
            parser.offset() == 0,
    {
        Self { tokens, current: 0 }
    }

    /// Reads statements up to the end of input. Gives them in source order, or
    /// the error of the first token that the grammar does not allow where it
    /// stands; the parser then stays where it was. What it gives is of the
    /// shape that `frontend::shape` describes.
    pub fn parse(&mut self) -> (result: Result<Program, Error>)
        ensures
            final(self).tokens() == old(self).tokens(),
            match result {
                Ok(program) => gives(
                    grammar::program(old(self).tokens(), old(self).offset(), Seq::empty()),
                    statements_view(program@),
                    final(self).offset(),
                ),
                Err(error) => fails(
                    grammar::program(old(self).tokens(), old(self).offset(), Seq::empty()),
                    error@,
                ) && final(self).offset() == old(self).offset(),
            },
            result is Ok ==> crate::frontend::shape::all_shaped(statements_view(result->Ok_0@)),
    {
        proof {
            use_type_invariant(&*self);
            crate::frontend::shape::lemma_program_shaped(
                tokens_view(self.tokens@),
                self.current as int,
                Seq::empty(),
            );
        }
        match Self::program(&self.tokens, self.current) {
            Err(error) => Err(error),
            Ok((program, end)) => {
                self.current = end;
                Ok(program)
            },
        }
    }

    /// Statements up to the end of input.
    #[verifier::spinoff_prover]
    fn program(tokens: &Vec<Token>, pos: usize) -> (result: Result<(Program, usize), Error>)
        requires
            ends_with_eof(tokens_view(tokens@)),
            pos < tokens.len(),
        ensures
            match result {
                Ok((program, next)) => gives(
                    grammar::program(tokens_view(tokens@), pos as int, Seq::empty()),
                    statements_view(program@),
                    next as int,
                ) && pos <= next < tokens.len(),
                Err(error) => fails(
                    grammar::program(tokens_view(tokens@), pos as int, Seq::empty()),
                    error@,
                ),
            },
    {
        let mut program: Vec<Statement> = Vec::new();
        let mut p: usize = pos;
        assert(statements_view(program@) =~= Seq::<crate::common::ast::StatementView>::empty());
        while !Self::eof(tokens, p)
            invariant
                ends_with_eof(tokens_view(tokens@)),
                pos <= p < tokens.len(),
                grammar::program(tokens_view(tokens@), pos as int, Seq::empty())
                    == grammar::program(tokens_view(tokens@), p as int, statements_view(program@)),
            decreases tokens.len() - p,
        {
            let ghost found = statements_view(program@);
            match Self::statement(tokens, p) {
                Err(error) => {
                    return Err(error);
                },
                Ok((statement, next)) => {
                    program.push(statement);
                    assert(statements_view(program@) =~= found.push(statement@));
                    p = next;
                },
            }
        }
        Ok((program, p))
    }

    /// The kind of the token at `pos`.
    fn kind(tokens: &Vec<Token>, pos: usize) -> (kind: TokenType)
        requires
            pos < tokens.len(),
        ensures
            kind == kind_at(tokens_view(tokens@), pos as int),
    {
        tokens[pos].ttype
    }

    /// A copy of the token at `pos`.
    fn peek(tokens: &Vec<Token>, pos: usize) -> (token: Token)
        requires
            pos < tokens.len(),
        ensures
            token@ == tokens_view(tokens@)[pos as int],
    {
        tokens[pos].clone()
    }

    /// The kind of the token behind the one at `pos`; past the sequence, the end of input.
    fn peek_next(tokens: &Vec<Token>, pos: usize) -> (kind: TokenType)
        requires
            pos < tokens.len(),
        ensures
            kind == kind_at(tokens_view(tokens@), pos + 1),
    {
        if pos + 1 < tokens.len() {
            tokens[pos + 1].ttype
        } else {
            TokenType::EOF
        }
    }

    /// Whether the end of input stands at `pos`.
    fn eof(tokens: &Vec<Token>, pos: usize) -> (at_end: bool)
        requires
            pos < tokens.len(),
        ensures
            at_end == (kind_at(tokens_view(tokens@), pos as int) == TokenType::EOF),
    {
        tokens[pos].ttype == TokenType::EOF
    }

    /// The offset behind the token at `pos`; the end of input is not passed.
    fn advance(tokens: &Vec<Token>, pos: usize) -> (next: usize)
        requires
            ends_with_eof(tokens_view(tokens@)),
            pos < tokens.len(),
        ensures
            next == grammar::advance(tokens_view(tokens@), pos as int),
            pos <= next < tokens.len(),
    {
        if !Self::eof(tokens, pos) {
            pos + 1
        } else {
            pos
        }
    }

    /// The error of a token that is not the one the grammar asks for.
    fn expected(wanted: TokenType, found: &Token) -> (error: Error)
        ensures
            error@ == grammar::expected(wanted, found@),
    {
        let mut message = "Expected `".to_owned();
        message.append(wanted.to_text().as_str());
        message.append("`, found `");
        message.append(found.ttype.to_text().as_str());
        message.append("`");
        Error::new(ErrorType::ParsingError, message, found.position.clone())
    }

    /// The error of a token with which nothing can start.
    fn unexpected(found: &Token) -> (error: Error)
        ensures
            error@ == grammar::unexpected(found@),
    {
        let mut message = "Unexpected token `".to_owned();
        message.append(found.ttype.to_text().as_str());
        message.append("`");
        Error::new(ErrorType::ParsingError, message, found.position.clone())
    }

    /// The token at `pos` if it is of kind `ttype`, else an error.
    fn eat(tokens: &Vec<Token>, pos: usize, ttype: TokenType) -> (result: Result<
        (Token, usize),
        Error,
    >)
        requires
            ends_with_eof(tokens_view(tokens@)),
            pos < tokens.len(),
        ensures
            match result {
                Ok((token, next)) => gives(
                    grammar::eat(tokens_view(tokens@), pos as int, ttype),
                    token@,
                    next as int,
                ) && pos <= next < tokens.len() && (ttype != TokenType::EOF ==> next == pos + 1),
                Err(error) => fails(grammar::eat(tokens_view(tokens@), pos as int, ttype), error@),
            },
    {
        if tokens[pos].ttype == ttype {
            Ok((Self::peek(tokens, pos), Self::advance(tokens, pos)))
        } else {
            Err(Self::expected(ttype, &tokens[pos]))
        }
    }

    /// One statement, told by its first token.
    fn statement(tokens: &Vec<Token>, pos: usize) -> (result: Result<(Statement, usize), Error>)
        requires
            ends_with_eof(tokens_view(tokens@)),
            pos < tokens.len(),
        ensures
            match result {
                Ok((statement, next)) => gives(
                    grammar::statement(tokens_view(tokens@), pos as int),
                    statement@,
                    next as int,
                ) && pos < next < tokens.len(),
                Err(error) => fails(grammar::statement(tokens_view(tokens@), pos as int), error@),
            },
        decreases tokens.len() - pos, 40int,
    {
        let kind = Self::kind(tokens, pos);
        if kind == TokenType::Func {
            Self::function_as_statement(tokens, pos)
        } else if kind == TokenType::Let {
            Self::let_as_statement(tokens, pos)
        } else if kind == TokenType::Return {
            Self::return_as_statement(tokens, pos)
        } else if kind == TokenType::OpenCurly {
            Self::block_as_statement(tokens, pos)
        } else if kind == TokenType::If {
            Self::if_as_statement(tokens, pos)
        } else if kind == TokenType::Read || kind == TokenType::Write || kind == TokenType::Push
            || kind == TokenType::Pop {
            Self::builtin_as_statement(tokens, pos)
        } else if kind == TokenType::Identifier && Self::peek_next(tokens, pos)
            == TokenType::Equal {
            Self::assignment_as_statement(tokens, pos)
        } else {
            Self::expression_as_statement(tokens, pos)
        }
    }

    /// A function definition as a statement.
    #[verifier::spinoff_prover]
    fn function_as_statement(tokens: &Vec<Token>, pos: usize) -> (result: Result<(Statement, usize), Error>)
        requires
            ends_with_eof(tokens_view(tokens@)),
            pos < tokens.len(),
            kind_at(tokens_view(tokens@), pos as int) == TokenType::Func,
        ensures
            match result {
                Ok((statement, next)) => gives(
                    grammar::statement(tokens_view(tokens@), pos as int),
                    statement@,
                    next as int,
                ) && pos < next < tokens.len(),
                Err(error) => fails(grammar::statement(tokens_view(tokens@), pos as int), error@),
            },
        decreases tokens.len() - pos, 39int,
    {
        match Self::function_statement(tokens, pos) {
            Err(error) => Err(error),
            Ok((function, next)) => Ok((Statement::Function(function), next)),
        }
    }

    /// A declaration as a statement.
    #[verifier::spinoff_prover]
    fn let_as_statement(tokens: &Vec<Token>, pos: usize) -> (result: Result<(Statement, usize), Error>)
        requires
            ends_with_eof(tokens_view(tokens@)),
            pos < tokens.len(),
            kind_at(tokens_view(tokens@), pos as int) == TokenType::Let,
        ensures
            match result {
                Ok((statement, next)) => gives(
                    grammar::statement(tokens_view(tokens@), pos as int),
                    statement@,
                    next as int,
                ) && pos < next < tokens.len(),
                Err(error) => fails(grammar::statement(tokens_view(tokens@), pos as int), error@),
            },
        decreases tokens.len() - pos, 39int,
    {
        match Self::let_statement(tokens, pos) {
            Err(error) => Err(error),
            Ok((statement, next)) => Ok((Statement::Let(statement), next)),
        }
    }

    /// A return as a statement.
    #[verifier::spinoff_prover]
    fn return_as_statement(tokens: &Vec<Token>, pos: usize) -> (result: Result<(Statement, usize), Error>)
        requires
            ends_with_eof(tokens_view(tokens@)),
            pos < tokens.len(),
            kind_at(tokens_view(tokens@), pos as int) == TokenType::Return,
        ensures
            match result {
                Ok((statement, next)) => gives(
                    grammar::statement(tokens_view(tokens@), pos as int),
                    statement@,
                    next as int,
                ) && pos < next < tokens.len(),
                Err(error) => fails(grammar::statement(tokens_view(tokens@), pos as int), error@),
            },
        decreases tokens.len() - pos, 39int,
    {
        match Self::return_statement(tokens, pos) {
            Err(error) => Err(error),
            Ok((value, next)) => Ok((Statement::Return(value), next)),
        }
    }

    /// A block as a statement.
    #[verifier::spinoff_prover]
    fn block_as_statement(tokens: &Vec<Token>, pos: usize) -> (result: Result<(Statement, usize), Error>)
        requires
            ends_with_eof(tokens_view(tokens@)),
            pos < tokens.len(),
            kind_at(tokens_view(tokens@), pos as int) == TokenType::OpenCurly,
        ensures
            match result {
                Ok((statement, next)) => gives(
                    grammar::statement(tokens_view(tokens@), pos as int),
                    statement@,
                    next as int,
                ) && pos < next < tokens.len(),
                Err(error) => fails(grammar::statement(tokens_view(tokens@), pos as int), error@),
            },
        decreases tokens.len() - pos, 39int,
    {
        match Self::block_expression(tokens, pos) {
            Err(error) => Err(error),
            Ok((block, next)) => Ok((Statement::Expression(Expression::Block(block)), next)),
        }
    }

    /// An `if` as a statement.
    #[verifier::spinoff_prover]
    fn if_as_statement(tokens: &Vec<Token>, pos: usize) -> (result: Result<(Statement, usize), Error>)
        requires
            ends_with_eof(tokens_view(tokens@)),
            pos < tokens.len(),
            kind_at(tokens_view(tokens@), pos as int) == TokenType::If,
        ensures
            match result {
                Ok((statement, next)) => gives(
                    grammar::statement(tokens_view(tokens@), pos as int),
                    statement@,
                    next as int,
                ) && pos < next < tokens.len(),
                Err(error) => fails(grammar::statement(tokens_view(tokens@), pos as int), error@),
            },
        decreases tokens.len() - pos, 39int,
    {
        match Self::if_expression(tokens, pos) {
            Err(error) => Err(error),
            Ok((branch, next)) => Ok((Statement::Expression(Expression::If(branch)), next)),
        }
    }

    /// A built-in statement as a statement.
    #[verifier::spinoff_prover]
    fn builtin_as_statement(tokens: &Vec<Token>, pos: usize) -> (result: Result<(Statement, usize), Error>)
        requires
            ends_with_eof(tokens_view(tokens@)),
            pos < tokens.len(),
            grammar::is_builtin(kind_at(tokens_view(tokens@), pos as int)),
        ensures
            match result {
                Ok((statement, next)) => gives(
                    grammar::statement(tokens_view(tokens@), pos as int),
                    statement@,
                    next as int,
                ) && pos < next < tokens.len(),
                Err(error) => fails(grammar::statement(tokens_view(tokens@), pos as int), error@),
            },
        decreases tokens.len() - pos, 39int,
    {
        match Self::builtin_function_statement(tokens, pos) {
            Err(error) => Err(error),
            Ok((statement, next)) => Ok((Statement::BuiltinFunction(statement), next)),
        }
    }

    /// An assignment as a statement.
    #[verifier::spinoff_prover]
    fn assignment_as_statement(tokens: &Vec<Token>, pos: usize) -> (result: Result<(Statement, usize), Error>)
        requires
            ends_with_eof(tokens_view(tokens@)),
            pos < tokens.len(),
            kind_at(tokens_view(tokens@), pos as int) == TokenType::Identifier,
            kind_at(tokens_view(tokens@), pos + 1) == TokenType::Equal,
        ensures
            match result {
                Ok((statement, next)) => gives(
                    grammar::statement(tokens_view(tokens@), pos as int),
                    statement@,
                    next as int,
                ) && pos < next < tokens.len(),
                Err(error) => fails(grammar::statement(tokens_view(tokens@), pos as int), error@),
            },
        decreases tokens.len() - pos, 39int,
    {
        match Self::assignment_statement(tokens, pos) {
            Err(error) => Err(error),
            Ok((statement, next)) => Ok((Statement::Assignment(statement), next)),
        }
    }

    /// An expression as a statement.
    #[verifier::spinoff_prover]
    fn expression_as_statement(tokens: &Vec<Token>, pos: usize) -> (result: Result<(Statement, usize), Error>)
        requires
            ends_with_eof(tokens_view(tokens@)),
            pos < tokens.len(),
            kind_at(tokens_view(tokens@), pos as int) != TokenType::Func,
            kind_at(tokens_view(tokens@), pos as int) != TokenType::Let,
            kind_at(tokens_view(tokens@), pos as int) != TokenType::Return,
            kind_at(tokens_view(tokens@), pos as int) != TokenType::OpenCurly,
            kind_at(tokens_view(tokens@), pos as int) != TokenType::If,
            !grammar::is_builtin(kind_at(tokens_view(tokens@), pos as int)),
            !(kind_at(tokens_view(tokens@), pos as int) == TokenType::Identifier && kind_at(
                tokens_view(tokens@),
                pos + 1,
            ) == TokenType::Equal),
        ensures
            match result {
                Ok((statement, next)) => gives(
                    grammar::statement(tokens_view(tokens@), pos as int),
                    statement@,
                    next as int,
                ) && pos < next < tokens.len(),
                Err(error) => fails(grammar::statement(tokens_view(tokens@), pos as int), error@),
            },
        decreases tokens.len() - pos, 39int,
    {
        match Self::expression(tokens, pos) {
            Err(error) => Err(error),
            Ok((value, next)) => Ok((Statement::Expression(value), next)),
        }
    }

    /// `let name` or `let name = expression`.
    #[verifier::spinoff_prover]
    fn let_statement(tokens: &Vec<Token>, pos: usize) -> (result: Result<
        (LetStatement, usize),
        Error,
    >)
        requires
            ends_with_eof(tokens_view(tokens@)),
            pos < tokens.len(),
            kind_at(tokens_view(tokens@), pos as int) == TokenType::Let,
        ensures
            match result {
                Ok((statement, next)) => gives(
                    grammar::let_statement(tokens_view(tokens@), pos as int),
                    Statement::Let(statement)@,
                    next as int,
                ) && pos < next < tokens.len(),
                Err(error) => fails(
                    grammar::let_statement(tokens_view(tokens@), pos as int),
                    error@,
                ),
            },
        decreases tokens.len() - pos, 8int,
    {
        let after_let = Self::advance(tokens, pos);
        match Self::eat(tokens, after_let, TokenType::Identifier) {
            Err(error) => Err(error),
            Ok((identifier, next)) => {
                if Self::kind(tokens, next) == TokenType::Equal {
                    match Self::expression(tokens, next + 1) {
                        Err(error) => Err(error),
                        Ok((value, end)) => Ok((LetStatement::new(identifier, value), end)),
                    }
                } else {
                    let nil = Token::new(
                        TokenType::Nil,
                        "nil".to_owned(),
                        Some(Object::Nil(Meta::default())),
                        tokens[next].position.clone(),
                    );
                    Ok(
                        (
                            LetStatement::new(
                                identifier,
                                Expression::Literal(LiteralExpression::new(nil)),
                            ),
                            next,
                        ),
                    )
                }
            },
        }
    }

    /// `name = expression`.
    #[verifier::spinoff_prover]
    fn assignment_statement(tokens: &Vec<Token>, pos: usize) -> (result: Result<
        (AssignmentStatement, usize),
        Error,
    >)
        requires
            ends_with_eof(tokens_view(tokens@)),
            pos < tokens.len(),
            kind_at(tokens_view(tokens@), pos as int) == TokenType::Identifier,
            kind_at(tokens_view(tokens@), pos + 1) == TokenType::Equal,
        ensures
            match result {
                Ok((statement, next)) => gives(
                    grammar::statement(tokens_view(tokens@), pos as int),
                    Statement::Assignment(statement)@,
                    next as int,
                ) && pos < next < tokens.len(),
                Err(error) => fails(grammar::statement(tokens_view(tokens@), pos as int), error@),
            },
        decreases tokens.len() - pos, 8int,
    {
        let identifier = Self::peek(tokens, pos);
        match Self::expression(tokens, pos + 2) {
            Err(error) => Err(error),
            Ok((value, next)) => Ok((AssignmentStatement::new(identifier, value), next)),
        }
    }

    /// `return expression`: the expression.
    fn return_statement(tokens: &Vec<Token>, pos: usize) -> (result: Result<
        (Expression, usize),
        Error,
    >)
        requires
            ends_with_eof(tokens_view(tokens@)),
            pos < tokens.len(),
            kind_at(tokens_view(tokens@), pos as int) == TokenType::Return,
        ensures
            match result {
                Ok((value, next)) => gives(
                    grammar::binary(tokens_view(tokens@), pos + 1, Level::And),
                    value@,
                    next as int,
                ) && pos < next < tokens.len(),
                Err(error) => fails(grammar::binary(tokens_view(tokens@), pos + 1, Level::And), error@),
            },
        decreases tokens.len() - pos, 8int,
    {
        let after_return = Self::advance(tokens, pos);
        Self::expression(tokens, after_return)
    }

    /// The names of a parameter list, comma-separated.
    fn parameters(tokens: &Vec<Token>, pos: usize) -> (result: Result<(Vec<Token>, usize), Error>)
        requires
            ends_with_eof(tokens_view(tokens@)),
            pos < tokens.len(),
        ensures
            match result {
                Ok((names, next)) => gives(
                    grammar::parameters(tokens_view(tokens@), pos as int, Seq::empty()),
                    tokens_view(names@),
                    next as int,
                ) && pos < next < tokens.len(),
                Err(error) => fails(
                    grammar::parameters(tokens_view(tokens@), pos as int, Seq::empty()),
                    error@,
                ),
            },
    {
        let mut names: Vec<Token> = Vec::new();
        let mut p: usize = pos;
        let mut more = true;
        assert(tokens_view(names@) =~= Seq::<TokenView>::empty());
        while more
            invariant
                ends_with_eof(tokens_view(tokens@)),
                pos <= p < tokens.len(),
                more ==> grammar::parameters(tokens_view(tokens@), pos as int, Seq::empty())
                    == grammar::parameters(tokens_view(tokens@), p as int, tokens_view(names@)),
                !more ==> pos < p && gives(
                    grammar::parameters(tokens_view(tokens@), pos as int, Seq::empty()),
                    tokens_view(names@),
                    p as int,
                ),
            decreases tokens.len() - p,
        {
            let ghost found = tokens_view(names@);
            match Self::eat(tokens, p, TokenType::Identifier) {
                Err(error) => {
                    return Err(error);
                },
                Ok((name, next)) => {
                    names.push(name);
                    assert(tokens_view(names@) =~= found.push(name@));
                    if Self::kind(tokens, next) == TokenType::Comma {
                        p = next + 1;
                    } else {
                        p = next;
                        more = false;
                    }
                },
            }
        }
        Ok((names, p))
    }

    /// `func name ( parameters? ) block`.
    #[verifier::spinoff_prover]
    fn function_statement(tokens: &Vec<Token>, pos: usize) -> (result: Result<
        (FunctionStatement, usize),
        Error,
    >)
        requires
            ends_with_eof(tokens_view(tokens@)),
            pos < tokens.len(),
            kind_at(tokens_view(tokens@), pos as int) == TokenType::Func,
        ensures
            match result {
                Ok((function, next)) => gives(
                    grammar::function_statement(tokens_view(tokens@), pos as int),
                    function@,
                    next as int,
                ) && pos < next < tokens.len(),
                Err(error) => fails(
                    grammar::function_statement(tokens_view(tokens@), pos as int),
                    error@,
                ),
            },
        decreases tokens.len() - pos, 8int,
    {
        let after_func = Self::advance(tokens, pos);
        let (identifier, after_name) = match Self::eat(tokens, after_func, TokenType::Identifier) {
            Err(error) => {
                return Err(error);
            },
            Ok(found) => found,
        };
        let after_open = match Self::eat(tokens, after_name, TokenType::OpenParen) {
            Err(error) => {
                return Err(error);
            },
            Ok((_, next)) => next,
        };
        let (paramiters, p) = if Self::kind(tokens, after_open) != TokenType::CloseParen
            && !Self::eof(tokens, after_open) {
            match Self::parameters(tokens, after_open) {
                Err(error) => {
                    return Err(error);
                },
                Ok(found) => found,
            }
        } else {
            let paramiters: Vec<Token> = Vec::new();
            assert(tokens_view(paramiters@) =~= Seq::<TokenView>::empty());
            (paramiters, after_open)
        };
        let after_close = match Self::eat(tokens, p, TokenType::CloseParen) {
            Err(error) => {
                return Err(error);
            },
            Ok((_, next)) => next,
        };
        match Self::block_expression(tokens, after_close) {
            Err(error) => Err(error),
            Ok((block, end)) => Ok(
                (FunctionStatement::new(identifier, paramiters, block, false), end),
            ),
        }
    }

    /// Expressions separated by commas, at least one.
    #[verifier::spinoff_prover]
    fn arguments(tokens: &Vec<Token>, pos: usize) -> (result: Result<
        (Vec<Expression>, usize),
        Error,
    >)
        requires
            ends_with_eof(tokens_view(tokens@)),
            pos < tokens.len(),
        ensures
            match result {
                Ok((values, next)) => gives(
                    grammar::arguments(tokens_view(tokens@), pos as int, Seq::empty()),
                    expressions_view(values@),
                    next as int,
                ) && pos < next < tokens.len(),
                Err(error) => fails(
                    grammar::arguments(tokens_view(tokens@), pos as int, Seq::empty()),
                    error@,
                ),
            },
        decreases tokens.len() - pos, 31int,
    {
        let mut values: Vec<Expression> = Vec::new();
        let mut p: usize = pos;
        assert(expressions_view(values@) =~= Seq::<crate::common::ast::ExpressionView>::empty());
        let mut more = true;
        while more
            invariant
                ends_with_eof(tokens_view(tokens@)),
                pos <= p < tokens.len(),
                more ==> grammar::arguments(tokens_view(tokens@), pos as int, Seq::empty())
                    == grammar::arguments(tokens_view(tokens@), p as int, expressions_view(values@)),
                !more ==> pos < p && gives(
                    grammar::arguments(tokens_view(tokens@), pos as int, Seq::empty()),
                    expressions_view(values@),
                    p as int,
                ),
            decreases tokens.len() - p,
        {
            let ghost found = expressions_view(values@);
            match Self::expression(tokens, p) {
                Err(error) => {
                    return Err(error);
                },
                Ok((value, next)) => {
                    values.push(value);
                    assert(expressions_view(values@) =~= found.push(value@));
                    if Self::kind(tokens, next) == TokenType::Comma {
                        p = next + 1;
                    } else {
                        p = next;
                        more = false;
                    }
                },
            }
        }
        Ok((values, p))
    }

    /// The arguments of a built-in statement of kind `kind`, from behind its `(`.
    fn builtin_arguments(tokens: &Vec<Token>, pos: usize, kind: TokenType) -> (result: Result<
        (BuiltinFunctionStatement, usize),
        Error,
    >)
        requires
            ends_with_eof(tokens_view(tokens@)),
            pos < tokens.len(),
        ensures
            match result {
                Ok((statement, next)) => gives(
                    grammar::builtin_arguments(tokens_view(tokens@), pos as int, kind),
                    (statement.builtin_function, expressions_view(statement.arguments@)),
                    next as int,
                ) && pos < next < tokens.len(),
                Err(error) => fails(
                    grammar::builtin_arguments(tokens_view(tokens@), pos as int, kind),
                    error@,
                ),
            },
        decreases tokens.len() - pos, 33int,
    {
        if kind == TokenType::Write {
            Self::write_arguments(tokens, pos, kind)
        } else if kind == TokenType::Push {
            Self::push_arguments(tokens, pos, kind)
        } else {
            Self::name_argument(tokens, pos, kind)
        }
    }

    /// The arguments of `write`: expressions, at least one.
    #[verifier::spinoff_prover]
    fn write_arguments(tokens: &Vec<Token>, pos: usize, kind: TokenType) -> (result: Result<
        (BuiltinFunctionStatement, usize),
        Error,
    >)
        requires
            ends_with_eof(tokens_view(tokens@)),
            pos < tokens.len(),
            kind == TokenType::Write,
        ensures
            match result {
                Ok((statement, next)) => gives(
                    grammar::builtin_arguments(tokens_view(tokens@), pos as int, kind),
                    (statement.builtin_function, expressions_view(statement.arguments@)),
                    next as int,
                ) && pos < next < tokens.len(),
                Err(error) => fails(
                    grammar::builtin_arguments(tokens_view(tokens@), pos as int, kind),
                    error@,
                ),
            },
        decreases tokens.len() - pos, 32int,
    {
        match Self::arguments(tokens, pos) {
            Err(error) => Err(error),
            Ok((values, next)) => Ok(
                (BuiltinFunctionStatement::new(BuiltinFunction::Write, values), next),
            ),
        }
    }

    /// The arguments of `push`: an expression, a comma and a name.
    #[verifier::spinoff_prover]
    fn push_arguments(tokens: &Vec<Token>, pos: usize, kind: TokenType) -> (result: Result<
        (BuiltinFunctionStatement, usize),
        Error,
    >)
        requires
            ends_with_eof(tokens_view(tokens@)),
            pos < tokens.len(),
            kind == TokenType::Push,
        ensures
            match result {
                Ok((statement, next)) => gives(
                    grammar::builtin_arguments(tokens_view(tokens@), pos as int, kind),
                    (statement.builtin_function, expressions_view(statement.arguments@)),
                    next as int,
                ) && pos < next < tokens.len(),
                Err(error) => fails(
                    grammar::builtin_arguments(tokens_view(tokens@), pos as int, kind),
                    error@,
                ),
            },
        decreases tokens.len() - pos, 32int,
    {
        let (value, after_value) = match Self::expression(tokens, pos) {
            Err(error) => {
                return Err(error);
            },
            Ok(found) => found,
        };
        let after_comma = match Self::eat(tokens, after_value, TokenType::Comma) {
            Err(error) => {
                return Err(error);
            },
            Ok((_, next)) => next,
        };
        match Self::eat(tokens, after_comma, TokenType::Identifier) {
            Err(error) => Err(error),
            Ok((identifier, next)) => {
                let mut values: Vec<Expression> = Vec::new();
                values.push(value);
                values.push(Expression::Identifier(IdentifierExpression::new(identifier)));
                assert(expressions_view(values@) =~= seq![
                    value@,
                    crate::common::ast::ExpressionView::Identifier(identifier@),
                ]);
                Ok((BuiltinFunctionStatement::new(BuiltinFunction::Push, values), next))
            },
        }
    }

    /// The argument of `read` and of `pop`: a name.
    #[verifier::spinoff_prover]
    fn name_argument(tokens: &Vec<Token>, pos: usize, kind: TokenType) -> (result: Result<
        (BuiltinFunctionStatement, usize),
        Error,
    >)
        requires
            ends_with_eof(tokens_view(tokens@)),
            pos < tokens.len(),
            kind != TokenType::Write,
            kind != TokenType::Push,
        ensures
            match result {
                Ok((statement, next)) => gives(
                    grammar::builtin_arguments(tokens_view(tokens@), pos as int, kind),
                    (statement.builtin_function, expressions_view(statement.arguments@)),
                    next as int,
                ) && pos < next < tokens.len(),
                Err(error) => fails(
                    grammar::builtin_arguments(tokens_view(tokens@), pos as int, kind),
                    error@,
                ),
            },
    {
        match Self::eat(tokens, pos, TokenType::Identifier) {
            Err(error) => Err(error),
            Ok((identifier, next)) => {
                let mut values: Vec<Expression> = Vec::new();
                values.push(Expression::Identifier(IdentifierExpression::new(identifier)));
                assert(expressions_view(values@) =~= seq![
                    crate::common::ast::ExpressionView::Identifier(identifier@),
                ]);
                let builtin = if kind == TokenType::Read {
                    BuiltinFunction::Read
                } else {
                    BuiltinFunction::Pop
                };
                Ok((BuiltinFunctionStatement::new(builtin, values), next))
            },
        }
    }

    /// `read(name)`, `write(expression, ...)`, `push(expression, name)` or `pop(name)`.
    #[verifier::spinoff_prover]
    fn builtin_function_statement(tokens: &Vec<Token>, pos: usize) -> (result: Result<
        (BuiltinFunctionStatement, usize),
        Error,
    >)
        requires
            ends_with_eof(tokens_view(tokens@)),
            pos < tokens.len(),
            grammar::is_builtin(kind_at(tokens_view(tokens@), pos as int)),
        ensures
            match result {
                Ok((statement, next)) => gives(
                    grammar::builtin_function_statement(tokens_view(tokens@), pos as int),
                    Statement::BuiltinFunction(statement)@,
                    next as int,
                ) && pos < next < tokens.len(),
                Err(error) => fails(
                    grammar::builtin_function_statement(tokens_view(tokens@), pos as int),
                    error@,
                ),
            },
        decreases tokens.len() - pos, 8int,
    {
        let kind = Self::kind(tokens, pos);
        let after_keyword = Self::advance(tokens, pos);
        let inside = match Self::eat(tokens, after_keyword, TokenType::OpenParen) {
            Err(error) => {
                return Err(error);
            },
            Ok((_, next)) => next,
        };
        let (statement, next) = match Self::builtin_arguments(tokens, inside, kind) {
            Err(error) => {
                return Err(error);
            },
            Ok(found) => found,
        };
        match Self::eat(tokens, next, TokenType::CloseParen) {
            Err(error) => Err(error),
            Ok((_, end)) => Ok((statement, end)),
        }
    }

    /// `if expression block` and the `else` parts that follow.
    #[verifier::loop_isolation(false)]
    #[verifier::spinoff_prover]
    fn if_expression(tokens: &Vec<Token>, pos: usize) -> (result: Result<
        (IfExpression, usize),
        Error,
    >)
        requires
            ends_with_eof(tokens_view(tokens@)),
            pos < tokens.len(),
            kind_at(tokens_view(tokens@), pos as int) == TokenType::If,
        ensures
            match result {
                Ok((branch, next)) => gives(
                    grammar::if_expression(tokens_view(tokens@), pos as int),
                    branch@,
                    next as int,
                ) && pos < next < tokens.len(),
                Err(error) => fails(
                    grammar::if_expression(tokens_view(tokens@), pos as int),
                    error@,
                ),
            },
        decreases tokens.len() - pos, 2int,
    {
        let inside = Self::advance(tokens, pos);
        let (condition, after_condition) = match Self::expression(tokens, inside) {
            Err(error) => {
                return Err(error);
            },
            Ok(found) => found,
        };
        let (if_block, after_block) = match Self::block_expression(tokens, after_condition) {
            Err(error) => {
                return Err(error);
            },
            Ok(found) => found,
        };
        let mut else_block: Option<ElseBlock> = None;
        let mut p: usize = after_block;
        while Self::kind(tokens, p) == TokenType::Else
            invariant
                ends_with_eof(tokens_view(tokens@)),
                pos < after_block <= p < tokens.len(),
                grammar::else_chain(tokens_view(tokens@), after_block as int, None)
                    == grammar::else_chain(tokens_view(tokens@), p as int, else_view(else_block)),
            decreases tokens.len() - p,
        {
            if Self::peek_next(tokens, p) == TokenType::If {
                match Self::if_expression(tokens, p + 1) {
                    Err(error) => {
                        return Err(error);
                    },
                    Ok((nested, next)) => {
                        else_block = Some(ElseBlock::If(nested));
                        p = next;
                    },
                }
            } else {
                match Self::block_expression(tokens, p + 1) {
                    Err(error) => {
                        return Err(error);
                    },
                    Ok((block, next)) => {
                        else_block = Some(ElseBlock::Block(block));
                        p = next;
                    },
                }
            }
        }
        Ok((IfExpression::new(condition, if_block, else_block), p))
    }

    /// `{ statement* }`.
    #[verifier::loop_isolation(false)]
    #[verifier::spinoff_prover]
    fn block_expression(tokens: &Vec<Token>, pos: usize) -> (result: Result<
        (BlockExpression, usize),
        Error,
    >)
        requires
            ends_with_eof(tokens_view(tokens@)),
            pos < tokens.len(),
        ensures
            match result {
                Ok((block, next)) => gives(
                    grammar::block_expression(tokens_view(tokens@), pos as int),
                    block@,
                    next as int,
                ) && pos < next < tokens.len(),
                Err(error) => fails(
                    grammar::block_expression(tokens_view(tokens@), pos as int),
                    error@,
                ),
            },
        decreases tokens.len() - pos, 2int,
    {
        let inside = match Self::eat(tokens, pos, TokenType::OpenCurly) {
            Err(error) => {
                return Err(error);
            },
            Ok((_, next)) => next,
        };
        let mut statements: Vec<Statement> = Vec::new();
        let mut p: usize = inside;
        assert(statements_view(statements@) =~= Seq::<crate::common::ast::StatementView>::empty());
        while Self::kind(tokens, p) != TokenType::CloseCurly && !Self::eof(tokens, p)
            invariant
                ends_with_eof(tokens_view(tokens@)),
                inside <= p < tokens.len(),
                inside == pos + 1,
                grammar::block_rest(tokens_view(tokens@), inside as int, Seq::empty())
                    == grammar::block_rest(
                    tokens_view(tokens@),
                    p as int,
                    statements_view(statements@),
                ),
            decreases tokens.len() - p,
        {
            let ghost found = statements_view(statements@);
            match Self::statement(tokens, p) {
                Err(error) => {
                    return Err(error);
                },
                Ok((statement, next)) => {
                    statements.push(statement);
                    assert(statements_view(statements@) =~= found.push(statement@));
                    p = next;
                },
            }
        }
        match Self::eat(tokens, p, TokenType::CloseCurly) {
            Err(error) => Err(error),
            Ok((_, end)) => Ok((BlockExpression::new(statements), end)),
        }
    }

    /// An expression: what the loosest level of binary operators takes.
    fn expression(tokens: &Vec<Token>, pos: usize) -> (result: Result<(Expression, usize), Error>)
        requires
            ends_with_eof(tokens_view(tokens@)),
            pos < tokens.len(),
        ensures
            match result {
                Ok((value, next)) => gives(
                    grammar::binary(tokens_view(tokens@), pos as int, Level::And),
                    value@,
                    next as int,
                ) && pos < next < tokens.len(),
                Err(error) => fails(grammar::binary(tokens_view(tokens@), pos as int, Level::And), error@),
            },
        decreases tokens.len() - pos, 30int,
    {
        Self::and(tokens, pos)
    }

    /// Whether a token of kind `ttype` is an operator of `level`.
    fn has(level: Level, ttype: TokenType) -> (found: bool)
        ensures
            found == level.has(ttype),
    {
        match level {
            Level::And => ttype == TokenType::And,
            Level::Or => ttype == TokenType::Or,
            Level::Equality => ttype == TokenType::EqualEqual || ttype == TokenType::NotEqual,
            Level::Comparison => ttype == TokenType::Greater || ttype == TokenType::GreaterEqual
                || ttype == TokenType::Less || ttype == TokenType::LessEqual,
            Level::Additive => ttype == TokenType::Plus || ttype == TokenType::Minus,
            Level::Multiplicative => ttype == TokenType::Star || ttype == TokenType::Slash || ttype
                == TokenType::Modulo,
        }
    }

    /// `operand (operator operand)*` for the operators of `level`, grouped to the left.
    #[verifier::loop_isolation(false)]
    #[verifier::spinoff_prover]
    fn binary(tokens: &Vec<Token>, pos: usize, level: Level) -> (result: Result<
        (Expression, usize),
        Error,
    >)
        requires
            ends_with_eof(tokens_view(tokens@)),
            pos < tokens.len(),
        ensures
            match result {
                Ok((value, next)) => gives(
                    grammar::binary(tokens_view(tokens@), pos as int, level),
                    value@,
                    next as int,
                ) && pos < next < tokens.len(),
                Err(error) => fails(
                    grammar::binary(tokens_view(tokens@), pos as int, level),
                    error@,
                ),
            },
        decreases tokens.len() - pos, 12 + 3 * level.height(),
    {
        let (mut left, mut p) = match Self::operand(tokens, pos, level) {
            Err(error) => {
                return Err(error);
            },
            Ok(found) => found,
        };
        while Self::has(level, Self::kind(tokens, p))
            invariant
                ends_with_eof(tokens_view(tokens@)),
                pos < p < tokens.len(),
                grammar::binary(tokens_view(tokens@), pos as int, level) == grammar::binary_rest(
                    tokens_view(tokens@),
                    p as int,
                    level,
                    left@,
                ),
            decreases tokens.len() - p,
        {
            let operator = Self::peek(tokens, p);
            match Self::operand(tokens, p + 1, level) {
                Err(error) => {
                    return Err(error);
                },
                Ok((right, next)) => {
                    left = Expression::Binary(BinaryExpression::new(left, operator, right));
                    p = next;
                },
            }
        }
        Ok((left, p))
    }

    /// One operand of an operator of `level`.
    fn operand(tokens: &Vec<Token>, pos: usize, level: Level) -> (result: Result<
        (Expression, usize),
        Error,
    >)
        requires
            ends_with_eof(tokens_view(tokens@)),
            pos < tokens.len(),
        ensures
            match result {
                Ok((value, next)) => gives(
                    grammar::operand(tokens_view(tokens@), pos as int, level),
                    value@,
                    next as int,
                ) && pos < next < tokens.len(),
                Err(error) => fails(
                    grammar::operand(tokens_view(tokens@), pos as int, level),
                    error@,
                ),
            },
        decreases tokens.len() - pos, 11 + 3 * level.height(),
    {
        match level {
            Level::And => Self::or(tokens, pos),
            Level::Or => Self::equality(tokens, pos),
            Level::Equality => Self::comparison(tokens, pos),
            Level::Comparison => Self::additive(tokens, pos),
            Level::Additive => Self::multiplicative(tokens, pos),
            Level::Multiplicative => Self::unary(tokens, pos),
        }
    }

    /// `or ('&&' or)*`.
    fn and(tokens: &Vec<Token>, pos: usize) -> (result: Result<(Expression, usize), Error>)
        requires
            ends_with_eof(tokens_view(tokens@)),
            pos < tokens.len(),
        ensures
            match result {
                Ok((value, next)) => gives(
                    grammar::binary(tokens_view(tokens@), pos as int, Level::And),
                    value@,
                    next as int,
                ) && pos < next < tokens.len(),
                Err(error) => fails(
                    grammar::binary(tokens_view(tokens@), pos as int, Level::And),
                    error@,
                ),
            },
        decreases tokens.len() - pos, 28int,
    {
        Self::binary(tokens, pos, Level::And)
    }

    /// `equality ('||' equality)*`.
    fn or(tokens: &Vec<Token>, pos: usize) -> (result: Result<(Expression, usize), Error>)
        requires
            ends_with_eof(tokens_view(tokens@)),
            pos < tokens.len(),
        ensures
            match result {
                Ok((value, next)) => gives(
                    grammar::binary(tokens_view(tokens@), pos as int, Level::Or),
                    value@,
                    next as int,
                ) && pos < next < tokens.len(),
                Err(error) => fails(
                    grammar::binary(tokens_view(tokens@), pos as int, Level::Or),
                    error@,
                ),
            },
        decreases tokens.len() - pos, 25int,
    {
        Self::binary(tokens, pos, Level::Or)
    }

    /// `comparison (('==' | '!=') comparison)*`.
    fn equality(tokens: &Vec<Token>, pos: usize) -> (result: Result<(Expression, usize), Error>)
        requires
            ends_with_eof(tokens_view(tokens@)),
            pos < tokens.len(),
        ensures
            match result {
                Ok((value, next)) => gives(
                    grammar::binary(tokens_view(tokens@), pos as int, Level::Equality),
                    value@,
                    next as int,
                ) && pos < next < tokens.len(),
                Err(error) => fails(
                    grammar::binary(tokens_view(tokens@), pos as int, Level::Equality),
                    error@,
                ),
            },
        decreases tokens.len() - pos, 22int,
    {
        Self::binary(tokens, pos, Level::Equality)
    }

    /// `additive (('>' | '>=' | '<' | '<=') additive)*`.
    fn comparison(tokens: &Vec<Token>, pos: usize) -> (result: Result<(Expression, usize), Error>)
        requires
            ends_with_eof(tokens_view(tokens@)),
            pos < tokens.len(),
        ensures
            match result {
                Ok((value, next)) => gives(
                    grammar::binary(tokens_view(tokens@), pos as int, Level::Comparison),
                    value@,
                    next as int,
                ) && pos < next < tokens.len(),
                Err(error) => fails(
                    grammar::binary(tokens_view(tokens@), pos as int, Level::Comparison),
                    error@,
                ),
            },
        decreases tokens.len() - pos, 19int,
    {
        Self::binary(tokens, pos, Level::Comparison)
    }

    /// `multiplicative (('+' | '-') multiplicative)*`.
    fn additive(tokens: &Vec<Token>, pos: usize) -> (result: Result<(Expression, usize), Error>)
        requires
            ends_with_eof(tokens_view(tokens@)),
            pos < tokens.len(),
        ensures
            match result {
                Ok((value, next)) => gives(
                    grammar::binary(tokens_view(tokens@), pos as int, Level::Additive),
                    value@,
                    next as int,
                ) && pos < next < tokens.len(),
                Err(error) => fails(
                    grammar::binary(tokens_view(tokens@), pos as int, Level::Additive),
                    error@,
                ),
            },
        decreases tokens.len() - pos, 16int,
    {
        Self::binary(tokens, pos, Level::Additive)
    }

    /// `unary (('*' | '/' | '%') unary)*`.
    fn multiplicative(tokens: &Vec<Token>, pos: usize) -> (result: Result<
        (Expression, usize),
        Error,
    >)
        requires
            ends_with_eof(tokens_view(tokens@)),
            pos < tokens.len(),
        ensures
            match result {
                Ok((value, next)) => gives(
                    grammar::binary(tokens_view(tokens@), pos as int, Level::Multiplicative),
                    value@,
                    next as int,
                ) && pos < next < tokens.len(),
                Err(error) => fails(
                    grammar::binary(tokens_view(tokens@), pos as int, Level::Multiplicative),
                    error@,
                ),
            },
        decreases tokens.len() - pos, 13int,
    {
        Self::binary(tokens, pos, Level::Multiplicative)
    }

    /// `('-' | '!')? primary`.
    fn unary(tokens: &Vec<Token>, pos: usize) -> (result: Result<(Expression, usize), Error>)
        requires
            ends_with_eof(tokens_view(tokens@)),
            pos < tokens.len(),
        ensures
            match result {
                Ok((value, next)) => gives(
                    grammar::unary(tokens_view(tokens@), pos as int),
                    value@,
                    next as int,
                ) && pos < next < tokens.len(),
                Err(error) => fails(grammar::unary(tokens_view(tokens@), pos as int), error@),
            },
        decreases tokens.len() - pos, 5int,
    {
        let kind = Self::kind(tokens, pos);
        if kind == TokenType::Minus || kind == TokenType::Not {
            let operator = Self::peek(tokens, pos);
            match Self::primary(tokens, pos + 1) {
                Err(error) => Err(error),
                Ok((right, next)) => Ok(
                    (Expression::Unary(UnaryExpression::new(operator, right)), next),
                ),
            }
        } else {
            Self::primary(tokens, pos)
        }
    }

    /// The items of an array literal, comma-separated.
    fn array_items(tokens: &Vec<Token>, pos: usize) -> (result: Result<(Vec<Token>, usize), Error>)
        requires
            ends_with_eof(tokens_view(tokens@)),
            pos < tokens.len(),
        ensures
            match result {
                Ok((items, next)) => gives(
                    grammar::array_items(tokens_view(tokens@), pos as int, Seq::empty()),
                    tokens_view(items@),
                    next as int,
                ) && pos < next < tokens.len(),
                Err(error) => fails(
                    grammar::array_items(tokens_view(tokens@), pos as int, Seq::empty()),
                    error@,
                ),
            },
    {
        let mut items: Vec<Token> = Vec::new();
        let mut p: usize = pos;
        let mut more = true;
        assert(tokens_view(items@) =~= Seq::<TokenView>::empty());
        while more
            invariant
                ends_with_eof(tokens_view(tokens@)),
                pos <= p < tokens.len(),
                more ==> grammar::array_items(tokens_view(tokens@), pos as int, Seq::empty())
                    == grammar::array_items(tokens_view(tokens@), p as int, tokens_view(items@)),
                !more ==> pos < p && gives(
                    grammar::array_items(tokens_view(tokens@), pos as int, Seq::empty()),
                    tokens_view(items@),
                    p as int,
                ),
            decreases tokens.len() - p,
        {
            let ghost found = tokens_view(items@);
            let kind = Self::kind(tokens, p);
            if kind == TokenType::Number || kind == TokenType::String || kind
                == TokenType::Boolean {
                let item = Self::peek(tokens, p);
                items.push(item);
                assert(tokens_view(items@) =~= found.push(item@));
                if Self::kind(tokens, p + 1) == TokenType::Comma {
                    p = p + 2;
                } else {
                    p = p + 1;
                    more = false;
                }
            } else {
                return Err(Self::unexpected(&tokens[p]));
            }
        }
        Ok((items, p))
    }

    /// A literal, a name, a call, an array literal, an expression in parentheses,
    /// a block or an `if`.
    #[verifier::spinoff_prover]
    fn primary(tokens: &Vec<Token>, pos: usize) -> (result: Result<(Expression, usize), Error>)
        requires
            ends_with_eof(tokens_view(tokens@)),
            pos < tokens.len(),
        ensures
            match result {
                Ok((value, next)) => gives(
                    grammar::primary(tokens_view(tokens@), pos as int),
                    value@,
                    next as int,
                ) && pos < next < tokens.len(),
                Err(error) => fails(grammar::primary(tokens_view(tokens@), pos as int), error@),
            },
        decreases tokens.len() - pos, 4int,
    {
        let kind = Self::kind(tokens, pos);
        if kind == TokenType::Number || kind == TokenType::String || kind == TokenType::Boolean
            || kind == TokenType::Nil {
            Ok((Expression::Literal(LiteralExpression::new(Self::peek(tokens, pos))), pos + 1))
        } else if kind == TokenType::Identifier {
            let identifier = Self::peek(tokens, pos);
            if Self::kind(tokens, pos + 1) == TokenType::OpenParen {
                let (values, next) = if Self::kind(tokens, pos + 2) != TokenType::CloseParen {
                    match Self::arguments(tokens, pos + 2) {
                        Err(error) => {
                            return Err(error);
                        },
                        Ok(found) => found,
                    }
                } else {
                    let values: Vec<Expression> = Vec::new();
                    assert(expressions_view(values@) =~= Seq::<
                        crate::common::ast::ExpressionView,
                    >::empty());
                    (values, pos + 2)
                };
                match Self::eat(tokens, next, TokenType::CloseParen) {
                    Err(error) => Err(error),
                    Ok((_, end)) => Ok(
                        (Expression::Call(CallExpression::new(identifier, values)), end),
                    ),
                }
            } else {
                Ok((Expression::Identifier(IdentifierExpression::new(identifier)), pos + 1))
            }
        } else if kind == TokenType::OpenBrack {
            let (objects, p) = match Self::array_items(tokens, pos + 1) {
                Err(error) => {
                    return Err(error);
                },
                Ok(found) => found,
            };
            match Self::eat(tokens, p, TokenType::CloseBrack) {
                Err(error) => Err(error),
                Ok((_, end)) => Ok((Expression::Array(ArrayExpression::new(objects)), end)),
            }
        } else if kind == TokenType::OpenParen {
            match Self::expression(tokens, pos + 1) {
                Err(error) => Err(error),
                Ok((child, next)) => match Self::eat(tokens, next, TokenType::CloseParen) {
                    Err(error) => Err(error),
                    Ok((_, end)) => Ok((Expression::Group(GroupExpression::new(child)), end)),
                },
            }
        } else if kind == TokenType::OpenCurly {
            match Self::block_expression(tokens, pos) {
                Err(error) => Err(error),
                Ok((block, next)) => Ok((Expression::Block(block), next)),
            }
        } else if kind == TokenType::If {
            match Self::if_expression(tokens, pos) {
                Err(error) => Err(error),
                Ok((branch, next)) => Ok((Expression::If(branch), next)),
            }
        } else {
            Err(Self::unexpected(&tokens[pos]))
        }
    }
}

/// The program that a source text spells when it is scanned and then parsed.
pub open spec fn program_of(source: Seq<char>, path: Seq<char>) -> Result<
    Seq<crate::common::ast::StatementView>,
    ErrorView,
> {
    match crate::frontend::lexer::lex_all(source, path) {
        Err(error) => Err(error),
        Ok(tokens) => grammar::parse(tokens),
    }
}

/// Scans and parses a source text: its program, or the first lexing or parsing error.
pub fn read_program(source_path: String, source: &str) -> (result: Result<Program, Error>)
    requires
        source@.len() < usize::MAX,
    ensures
        match result {
            Ok(program) => program_of(source@, source_path@) == Ok::<
                Seq<crate::common::ast::StatementView>,
                ErrorView,
            >(statements_view(program@)),
            Err(error) => program_of(source@, source_path@) == Err::<
                Seq<crate::common::ast::StatementView>,
                ErrorView,
            >(error@),
        },
        result is Ok ==> crate::frontend::shape::all_shaped(statements_view(result->Ok_0@)),
{
    let mut lexer = crate::frontend::lexer::Lexer::new(source_path, source);
    match lexer.lex() {
        Err(error) => Err(error),
        Ok(tokens) => {
            let mut parser = Parser::new(tokens);
            parser.parse()
        },
    }
}

} // verus!
