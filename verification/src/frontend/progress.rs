//! Every rule of the grammar that succeeds has read at least one token and has
//! not read past the end of input. The rules that repeat, or that go on behind
//! another rule, ask for this before they go on; these lemmas show that what
//! they ask for always holds.

use crate::common::ast::{ElseView, ExpressionView, StatementView};
use crate::common::token::{TokenType, TokenView};
use crate::frontend::grammar::{
    advance, arguments, array_items, binary, binary_rest, block_expression, block_rest,
    builtin_arguments, builtin_function_statement, eat, else_chain, ends_with_eof,
    function_statement, if_expression, kind_at, let_statement, operand, parameters, primary,
    program, statement, unary, Level, Parsed,
};
use vstd::prelude::*;

verus! {

/// The rule has failed, or has left off behind `pos` and before the end.
pub open spec fn moved_on<T>(tokens: Seq<TokenView>, pos: int, result: Parsed<T>) -> bool {
    result is Ok ==> pos < result->Ok_0.1 < tokens.len()
}

/// The rule has failed, or has left off at or behind `pos` and before the end.
pub open spec fn not_back<T>(tokens: Seq<TokenView>, pos: int, result: Parsed<T>) -> bool {
    result is Ok ==> pos <= result->Ok_0.1 < tokens.len()
}

/// A token that is taken is one token read, unless it is the end of input.
pub proof fn lemma_eat(tokens: Seq<TokenView>, pos: int, wanted: TokenType)
    requires
        ends_with_eof(tokens),
        0 <= pos < tokens.len(),
    ensures
        not_back(tokens, pos, eat(tokens, pos, wanted)),
        wanted != TokenType::EOF ==> moved_on(tokens, pos, eat(tokens, pos, wanted)),
        0 <= advance(tokens, pos) < tokens.len(),
{
}

/// A program that is read has not gone back and ends before the end of input.
pub proof fn lemma_program(tokens: Seq<TokenView>, pos: int, found: Seq<StatementView>)
    requires
        ends_with_eof(tokens),
        0 <= pos < tokens.len(),
    ensures
        not_back(tokens, pos, program(tokens, pos, found)),
    decreases tokens.len() - pos, 30int,
{
    if kind_at(tokens, pos) != TokenType::EOF {
        lemma_statement(tokens, pos);
        if let Ok((first, next)) = statement(tokens, pos) {
            lemma_program(tokens, next, found.push(first));
        }
    }
}

/// The statements of a block that are read have not gone back and ends before the end of input.
pub proof fn lemma_block_rest(tokens: Seq<TokenView>, pos: int, found: Seq<StatementView>)
    requires
        ends_with_eof(tokens),
        0 <= pos < tokens.len(),
    ensures
        not_back(tokens, pos, block_rest(tokens, pos, found)),
    decreases tokens.len() - pos, 29int,
{
    if kind_at(tokens, pos) != TokenType::CloseCurly && kind_at(tokens, pos) != TokenType::EOF {
        lemma_statement(tokens, pos);
        if let Ok((first, next)) = statement(tokens, pos) {
            lemma_block_rest(tokens, next, found.push(first));
        }
    }
}

/// A statement that is read has taken at least one token and ends before the end of input.
pub proof fn lemma_statement(tokens: Seq<TokenView>, pos: int)
    requires
        ends_with_eof(tokens),
        0 <= pos < tokens.len(),
    ensures
        moved_on(tokens, pos, statement(tokens, pos)),
    decreases tokens.len() - pos, 28int,
{
    let kind = kind_at(tokens, pos);
    if kind == TokenType::Func {
        lemma_function_statement(tokens, pos);
    } else if kind == TokenType::Let {
        lemma_let_statement(tokens, pos);
    } else if kind == TokenType::Return {
        lemma_binary(tokens, pos + 1, Level::And);
    } else if kind == TokenType::OpenCurly {
        lemma_block_expression(tokens, pos);
    } else if kind == TokenType::If {
        lemma_if_expression(tokens, pos);
    } else if crate::frontend::grammar::is_builtin(kind) {
        lemma_builtin_function_statement(tokens, pos);
    } else if kind == TokenType::Identifier && kind_at(tokens, pos + 1) == TokenType::Equal {
        lemma_binary(tokens, pos + 2, Level::And);
    } else {
        lemma_binary(tokens, pos, Level::And);
    }
}

/// A declaration that is read has taken at least one token and ends before the end of input.
pub proof fn lemma_let_statement(tokens: Seq<TokenView>, pos: int)
    requires
        ends_with_eof(tokens),
        0 <= pos < tokens.len(),
        kind_at(tokens, pos) == TokenType::Let,
    ensures
        moved_on(tokens, pos, let_statement(tokens, pos)),
    decreases tokens.len() - pos, 7int,
{
    lemma_eat(tokens, pos + 1, TokenType::Identifier);
    if let Ok((_, next)) = eat(tokens, pos + 1, TokenType::Identifier) {
        if kind_at(tokens, next) == TokenType::Equal {
            lemma_binary(tokens, next + 1, Level::And);
        }
    }
}

/// A parameter list that is read has taken at least one token and ends before the end of input.
pub proof fn lemma_parameters(tokens: Seq<TokenView>, pos: int, found: Seq<TokenView>)
    requires
        ends_with_eof(tokens),
        0 <= pos < tokens.len(),
    ensures
        moved_on(tokens, pos, parameters(tokens, pos, found)),
    decreases tokens.len() - pos, 2int,
{
    lemma_eat(tokens, pos, TokenType::Identifier);
    if let Ok((name, next)) = eat(tokens, pos, TokenType::Identifier) {
        if kind_at(tokens, next) == TokenType::Comma {
            lemma_parameters(tokens, next + 1, found.push(name));
        }
    }
}

/// A function definition that is read has taken at least one token and ends before the end of input.
pub proof fn lemma_function_statement(tokens: Seq<TokenView>, pos: int)
    requires
        ends_with_eof(tokens),
        0 <= pos < tokens.len(),
        kind_at(tokens, pos) == TokenType::Func,
    ensures
        moved_on(tokens, pos, function_statement(tokens, pos)),
    decreases tokens.len() - pos, 7int,
{
    lemma_eat(tokens, pos + 1, TokenType::Identifier);
    if let Ok((_, after_name)) = eat(tokens, pos + 1, TokenType::Identifier) {
        lemma_eat(tokens, after_name, TokenType::OpenParen);
        if let Ok((_, after_open)) = eat(tokens, after_name, TokenType::OpenParen) {
            let listed = if kind_at(tokens, after_open) != TokenType::CloseParen && kind_at(
                tokens,
                after_open,
            ) != TokenType::EOF {
                parameters(tokens, after_open, Seq::empty())
            } else {
                Ok((Seq::empty(), after_open))
            };
            lemma_parameters(tokens, after_open, Seq::empty());
            if let Ok((_, after_names)) = listed {
                lemma_eat(tokens, after_names, TokenType::CloseParen);
                if let Ok((_, after_close)) = eat(tokens, after_names, TokenType::CloseParen) {
                    lemma_block_expression(tokens, after_close);
                }
            }
        }
    }
}

/// An argument list that is read has taken at least one token and ends before the end of input.
pub proof fn lemma_arguments(tokens: Seq<TokenView>, pos: int, found: Seq<ExpressionView>)
    requires
        ends_with_eof(tokens),
        0 <= pos < tokens.len(),
    ensures
        moved_on(tokens, pos, arguments(tokens, pos, found)),
    decreases tokens.len() - pos, 27int,
{
    lemma_binary(tokens, pos, Level::And);
    if let Ok((value, next)) = binary(tokens, pos, Level::And) {
        if kind_at(tokens, next) == TokenType::Comma {
            lemma_arguments(tokens, next + 1, found.push(value));
        }
    }
}

/// The arguments of a built-in statement that are read have taken at least one token and ends before the end of input.
pub proof fn lemma_builtin_arguments(tokens: Seq<TokenView>, pos: int, kind: TokenType)
    requires
        ends_with_eof(tokens),
        0 <= pos < tokens.len(),
    ensures
        moved_on(tokens, pos, builtin_arguments(tokens, pos, kind)),
    decreases tokens.len() - pos, 28int,
{
    if kind == TokenType::Write {
        lemma_arguments(tokens, pos, Seq::empty());
    } else if kind == TokenType::Push {
        lemma_binary(tokens, pos, Level::And);
        if let Ok((_, after_value)) = binary(tokens, pos, Level::And) {
            lemma_eat(tokens, after_value, TokenType::Comma);
            if let Ok((_, after_comma)) = eat(tokens, after_value, TokenType::Comma) {
                lemma_eat(tokens, after_comma, TokenType::Identifier);
            }
        }
    } else {
        lemma_eat(tokens, pos, TokenType::Identifier);
    }
}

/// A built-in statement that is read has taken at least one token and ends before the end of input.
pub proof fn lemma_builtin_function_statement(tokens: Seq<TokenView>, pos: int)
    requires
        ends_with_eof(tokens),
        0 <= pos < tokens.len(),
        crate::frontend::grammar::is_builtin(kind_at(tokens, pos)),
    ensures
        moved_on(tokens, pos, builtin_function_statement(tokens, pos)),
    decreases tokens.len() - pos, 7int,
{
    lemma_eat(tokens, pos + 1, TokenType::OpenParen);
    if let Ok((_, inside)) = eat(tokens, pos + 1, TokenType::OpenParen) {
        lemma_builtin_arguments(tokens, inside, kind_at(tokens, pos));
        if let Ok((_, next)) = builtin_arguments(tokens, inside, kind_at(tokens, pos)) {
            lemma_eat(tokens, next, TokenType::CloseParen);
        }
    }
}

/// A block that is read has taken at least one token and ends before the end of input.
pub proof fn lemma_block_expression(tokens: Seq<TokenView>, pos: int)
    requires
        ends_with_eof(tokens),
        0 <= pos < tokens.len(),
    ensures
        moved_on(tokens, pos, block_expression(tokens, pos)),
    decreases tokens.len() - pos, 0int,
{
    lemma_eat(tokens, pos, TokenType::OpenCurly);
    if let Ok((_, inside)) = eat(tokens, pos, TokenType::OpenCurly) {
        lemma_block_rest(tokens, inside, Seq::empty());
        if let Ok((_, next)) = block_rest(tokens, inside, Seq::empty()) {
            lemma_eat(tokens, next, TokenType::CloseCurly);
        }
    }
}

/// The `else` parts of an `if` that are read have not gone back and ends before the end of input.
pub proof fn lemma_else_chain(tokens: Seq<TokenView>, pos: int, found: Option<Box<ElseView>>)
    requires
        ends_with_eof(tokens),
        0 <= pos < tokens.len(),
    ensures
        not_back(tokens, pos, else_chain(tokens, pos, found)),
    decreases tokens.len() - pos, 24int,
{
    if kind_at(tokens, pos) == TokenType::Else {
        if kind_at(tokens, pos + 1) == TokenType::If {
            lemma_if_expression(tokens, pos + 1);
            if let Ok((nested, next)) = if_expression(tokens, pos + 1) {
                lemma_else_chain(tokens, next, Some(Box::new(ElseView::If(nested))));
            }
        } else {
            lemma_block_expression(tokens, pos + 1);
            if let Ok((block, next)) = block_expression(tokens, pos + 1) {
                lemma_else_chain(tokens, next, Some(Box::new(ElseView::Block(block))));
            }
        }
    }
}

/// An `if` that is read has taken at least one token and ends before the end of input.
pub proof fn lemma_if_expression(tokens: Seq<TokenView>, pos: int)
    requires
        ends_with_eof(tokens),
        0 <= pos < tokens.len(),
    ensures
        moved_on(tokens, pos, if_expression(tokens, pos)),
    decreases tokens.len() - pos, 0int,
{
    lemma_eat(tokens, pos, TokenType::If);
    if let Ok((_, inside)) = eat(tokens, pos, TokenType::If) {
        lemma_binary(tokens, inside, Level::And);
        if let Ok((_, after_condition)) = binary(tokens, inside, Level::And) {
            lemma_block_expression(tokens, after_condition);
            if let Ok((_, after_block)) = block_expression(tokens, after_condition) {
                lemma_else_chain(tokens, after_block, None);
            }
        }
    }
}

/// An operand that is read has taken at least one token and ends before the end of input.
pub proof fn lemma_operand(tokens: Seq<TokenView>, pos: int, level: Level)
    requires
        ends_with_eof(tokens),
        0 <= pos < tokens.len(),
    ensures
        moved_on(tokens, pos, operand(tokens, pos, level)),
    decreases tokens.len() - pos, 11 + 2 * level.height(),
{
    match level {
        Level::And => lemma_binary(tokens, pos, Level::Or),
        Level::Or => lemma_binary(tokens, pos, Level::Equality),
        Level::Equality => lemma_binary(tokens, pos, Level::Comparison),
        Level::Comparison => lemma_binary(tokens, pos, Level::Additive),
        Level::Additive => lemma_binary(tokens, pos, Level::Multiplicative),
        Level::Multiplicative => lemma_unary(tokens, pos),
    }
}

/// A run of binary operators of one level that is read has taken at least one token and ends before the end of input.
pub proof fn lemma_binary(tokens: Seq<TokenView>, pos: int, level: Level)
    requires
        ends_with_eof(tokens),
        0 <= pos < tokens.len(),
    ensures
        moved_on(tokens, pos, binary(tokens, pos, level)),
    decreases tokens.len() - pos, 12 + 2 * level.height(),
{
    lemma_operand(tokens, pos, level);
    if let Ok((left, next)) = operand(tokens, pos, level) {
        lemma_binary_rest(tokens, next, level, left);
    }
}

/// The rest of a run of binary operators that is read has not gone back and ends before the end of input.
pub proof fn lemma_binary_rest(tokens: Seq<TokenView>, pos: int, level: Level, left: ExpressionView)
    requires
        ends_with_eof(tokens),
        0 <= pos < tokens.len(),
    ensures
        not_back(tokens, pos, binary_rest(tokens, pos, level, left)),
    decreases tokens.len() - pos, 3int,
{
    if level.has(kind_at(tokens, pos)) {
        lemma_operand(tokens, pos + 1, level);
        if let Ok((right, next)) = operand(tokens, pos + 1, level) {
            lemma_binary_rest(
                tokens,
                next,
                level,
                ExpressionView::Binary(Box::new(left), tokens[pos], Box::new(right)),
            );
        }
    }
}

/// A unary expression that is read has taken at least one token and ends before the end of input.
pub proof fn lemma_unary(tokens: Seq<TokenView>, pos: int)
    requires
        ends_with_eof(tokens),
        0 <= pos < tokens.len(),
    ensures
        moved_on(tokens, pos, unary(tokens, pos)),
    decreases tokens.len() - pos, 5int,
{
    if kind_at(tokens, pos) == TokenType::Minus || kind_at(tokens, pos) == TokenType::Not {
        lemma_primary(tokens, pos + 1);
    } else {
        lemma_primary(tokens, pos);
    }
}

/// The items of an array literal that are read have taken at least one token and ends before the end of input.
pub proof fn lemma_array_items(tokens: Seq<TokenView>, pos: int, found: Seq<TokenView>)
    requires
        ends_with_eof(tokens),
        0 <= pos < tokens.len(),
    ensures
        moved_on(tokens, pos, array_items(tokens, pos, found)),
    decreases tokens.len() - pos, 1int,
{
    if crate::frontend::grammar::is_array_item(kind_at(tokens, pos)) {
        if kind_at(tokens, pos + 1) == TokenType::Comma {
            lemma_array_items(tokens, pos + 2, found.push(tokens[pos]));
        }
    }
}

/// A primary that is read has taken at least one token and ends before the end of input.
pub proof fn lemma_primary(tokens: Seq<TokenView>, pos: int)
    requires
        ends_with_eof(tokens),
        0 <= pos < tokens.len(),
    ensures
        moved_on(tokens, pos, primary(tokens, pos)),
    decreases tokens.len() - pos, 4int,
{
    let kind = kind_at(tokens, pos);
    if crate::frontend::grammar::is_literal(kind) {
    } else if kind == TokenType::Identifier {
        if kind_at(tokens, pos + 1) == TokenType::OpenParen {
            let listed = if kind_at(tokens, pos + 2) != TokenType::CloseParen {
                arguments(tokens, pos + 2, Seq::empty())
            } else {
                Ok((Seq::empty(), pos + 2))
            };
            lemma_arguments(tokens, pos + 2, Seq::empty());
            if let Ok((_, next)) = listed {
                lemma_eat(tokens, next, TokenType::CloseParen);
            }
        }
    } else if kind == TokenType::OpenBrack {
        lemma_array_items(tokens, pos + 1, Seq::empty());
        if let Ok((_, next)) = array_items(tokens, pos + 1, Seq::empty()) {
            lemma_eat(tokens, next, TokenType::CloseBrack);
        }
    } else if kind == TokenType::OpenParen {
        lemma_binary(tokens, pos + 1, Level::And);
        if let Ok((_, next)) = binary(tokens, pos + 1, Level::And) {
            lemma_eat(tokens, next, TokenType::CloseParen);
        }
    } else if kind == TokenType::OpenCurly {
        lemma_block_expression(tokens, pos);
    } else if kind == TokenType::If {
        lemma_if_expression(tokens, pos);
    }
}

/// A program that is read leaves no token unread: it ends at an end-of-input token.
pub proof fn lemma_program_reads_all(tokens: Seq<TokenView>, pos: int, found: Seq<StatementView>)
    requires
        ends_with_eof(tokens),
        0 <= pos < tokens.len(),
    ensures
        program(tokens, pos, found) is Ok ==> kind_at(tokens, program(tokens, pos, found)->Ok_0.1)
            == TokenType::EOF,
    decreases tokens.len() - pos,
{
    if kind_at(tokens, pos) != TokenType::EOF {
        lemma_statement(tokens, pos);
        if let Ok((first, next)) = statement(tokens, pos) {
            lemma_program_reads_all(tokens, next, found.push(first));
        }
    }
}

} // verus!
