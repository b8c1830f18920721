//! The grammar of the language, as functions from a token sequence and an offset
//! to what stands there and the offset behind it, or to the first error.
//!
//! From loosest to tightest: `&&`, `||`, `==` `!=`, `>` `>=` `<` `<=`, `+` `-`,
//! `*` `/` `%`, then one optional prefix `-` or `!`, then a primary. All binary
//! operators group to the left. A block and an `if` are primaries: they may
//! stand wherever an operand may. An expression is what the loosest level
//! takes: `binary` at `Level::And`.
//!
//! A rule that goes on behind another rule first asks that the other one has
//! moved on and stayed within the tokens, which is what makes these definitions
//! well-founded. It always has: see the module `progress`.

use crate::common::ast::{BuiltinFunction, ElseView, ExpressionView, FunctionView, IfView, StatementView};
use crate::common::error::{ErrorType, ErrorView};
use crate::common::object::{Meta, ObjectView};
use crate::common::text::plain;
use crate::common::token::{TokenType, TokenView};
use vstd::prelude::*;

verus! {

/// What a rule found and the offset behind it, or the error that ended parsing.
pub type Parsed<T> = Result<(T, int), ErrorView>;

/// A token sequence that the parser accepts: it ends with an end-of-input token.
pub open spec fn ends_with_eof(tokens: Seq<TokenView>) -> bool {
    tokens.len() > 0 && tokens.last().ttype == TokenType::EOF
}

/// The kind of the token at `pos`; past the sequence, the end of input.
pub open spec fn kind_at(tokens: Seq<TokenView>, pos: int) -> TokenType {
    if 0 <= pos < tokens.len() {
        tokens[pos].ttype
    } else {
        TokenType::EOF
    }
}

/// The offset behind the token at `pos`. The end of input is never passed.
pub open spec fn advance(tokens: Seq<TokenView>, pos: int) -> int {
    if kind_at(tokens, pos) != TokenType::EOF {
        pos + 1
    } else {
        pos
    }
}

/// The error of a token that is not the one the grammar asks for.
pub open spec fn expected(wanted: TokenType, found: TokenView) -> ErrorView {
    ErrorView {
        e_type: ErrorType::ParsingError,
        message: plain("Expected `"@ + wanted.name() + "`, found `"@ + found.ttype.name() + "`"@),
        position: found.position,
    }
}

/// The error of a token with which nothing can start.
pub open spec fn unexpected(found: TokenView) -> ErrorView {
    ErrorView {
        e_type: ErrorType::ParsingError,
        message: plain("Unexpected token `"@ + found.ttype.name() + "`"@),
        position: found.position,
    }
}

/// The token at `pos` if it is of kind `wanted`, else an error.
pub open spec fn eat(tokens: Seq<TokenView>, pos: int, wanted: TokenType) -> Parsed<TokenView> {
    if kind_at(tokens, pos) == wanted {
        Ok((tokens[pos], advance(tokens, pos)))
    } else {
        Err(expected(wanted, tokens[pos]))
    }
}

/// The levels of binary operators, loosest first.
#[derive(Clone, Copy, Debug, PartialEq, Eq, Structural)]
pub enum Level {
    And,
    Or,
    Equality,
    Comparison,
    Additive,
    Multiplicative,
}

impl Level {
    /// Whether a token of kind `ttype` is an operator of this level.
    pub open spec fn has(self, ttype: TokenType) -> bool {
        match self {
            Level::And => ttype == TokenType::And,
            Level::Or => ttype == TokenType::Or,
            Level::Equality => ttype == TokenType::EqualEqual || ttype == TokenType::NotEqual,
            Level::Comparison => ttype == TokenType::Greater || ttype == TokenType::GreaterEqual
                || ttype == TokenType::Less || ttype == TokenType::LessEqual,
            Level::Additive => ttype == TokenType::Plus || ttype == TokenType::Minus,
            Level::Multiplicative => ttype == TokenType::Star || ttype == TokenType::Slash || ttype
                == TokenType::Modulo,
        }
    }

    /// How many levels bind tighter than this one.
    pub open spec fn height(self) -> int {
        match self {
            Level::And => 5,
            Level::Or => 4,
            Level::Equality => 3,
            Level::Comparison => 2,
            Level::Additive => 1,
            Level::Multiplicative => 0,
        }
    }
}

/// A literal token: a number, a string, a boolean or `nil`.
pub open spec fn is_literal(ttype: TokenType) -> bool {
    ttype == TokenType::Number || ttype == TokenType::String || ttype == TokenType::Boolean
        || ttype == TokenType::Nil
}

/// A token that may stand in an array literal: a number, a string or a boolean.
pub open spec fn is_array_item(ttype: TokenType) -> bool {
    ttype == TokenType::Number || ttype == TokenType::String || ttype == TokenType::Boolean
}

/// The first token of a built-in statement.
pub open spec fn is_builtin(ttype: TokenType) -> bool {
    ttype == TokenType::Read || ttype == TokenType::Write || ttype == TokenType::Push || ttype
        == TokenType::Pop
}

/// The `nil` that a declaration without a value is given, placed at `at`.
pub open spec fn implied_nil(at: TokenView) -> ExpressionView {
    ExpressionView::Literal(
        TokenView {
            ttype: TokenType::Nil,
            lexeme: "nil"@,
            literal: Some(ObjectView::Nil(Meta { is_return: false })),
            position: at.position,
        },
    )
}

/// `program := statement* EOF`, after the statements `found`.
pub open spec fn program(tokens: Seq<TokenView>, pos: int, found: Seq<StatementView>) -> Parsed<
    Seq<StatementView>,
>
    decreases tokens.len() - pos, 30int,
{
    if kind_at(tokens, pos) == TokenType::EOF {
        Ok((found, pos))
    } else {
        match statement(tokens, pos) {
            Err(error) => Err(error),
            Ok((first, next)) => if pos < next <= tokens.len() {
                program(tokens, next, found.push(first))
            } else {
                Err(unexpected(tokens[pos]))
            },
        }
    }
}

/// The statements of a block up to its `}` or the end of input, after `found`.
pub open spec fn block_rest(tokens: Seq<TokenView>, pos: int, found: Seq<StatementView>) -> Parsed<
    Seq<StatementView>,
>
    decreases tokens.len() - pos, 29int,
{
    if kind_at(tokens, pos) == TokenType::CloseCurly || kind_at(tokens, pos) == TokenType::EOF {
        Ok((found, pos))
    } else {
        match statement(tokens, pos) {
            Err(error) => Err(error),
            Ok((first, next)) => if pos < next <= tokens.len() {
                block_rest(tokens, next, found.push(first))
            } else {
                Err(unexpected(tokens[pos]))
            },
        }
    }
}

/// A statement, told by its first token: `func` a function definition, `let` a
/// declaration, `return` a return, `{` a block, `if` an `if`, `read` `write`
/// `push` `pop` a built-in, a name before `=` an assignment; anything else is an
/// expression.
pub open spec fn statement(tokens: Seq<TokenView>, pos: int) -> Parsed<StatementView>
    decreases tokens.len() - pos, 28int,
{
    let kind = kind_at(tokens, pos);
    if kind == TokenType::Func {
        match function_statement(tokens, pos) {
            Err(error) => Err(error),
            Ok((function, next)) => Ok((StatementView::Function(function), next)),
        }
    } else if kind == TokenType::Let {
        let_statement(tokens, pos)
    } else if kind == TokenType::Return {
        match binary(tokens, pos + 1, Level::And) {
            Err(error) => Err(error),
            Ok((value, next)) => Ok((StatementView::Return(value), next)),
        }
    } else if kind == TokenType::OpenCurly {
        match block_expression(tokens, pos) {
            Err(error) => Err(error),
            Ok((block, next)) => Ok((StatementView::Expression(ExpressionView::Block(block)), next)),
        }
    } else if kind == TokenType::If {
        match if_expression(tokens, pos) {
            Err(error) => Err(error),
            Ok((branch, next)) => Ok((StatementView::Expression(ExpressionView::If(branch)), next)),
        }
    } else if is_builtin(kind) {
        builtin_function_statement(tokens, pos)
    } else if kind == TokenType::Identifier && kind_at(tokens, pos + 1) == TokenType::Equal {
        match binary(tokens, pos + 2, Level::And) {
            Err(error) => Err(error),
            Ok((value, next)) => Ok((StatementView::Assignment(tokens[pos], value), next)),
        }
    } else {
        match binary(tokens, pos, Level::And) {
            Err(error) => Err(error),
            Ok((value, next)) => Ok((StatementView::Expression(value), next)),
        }
    }
}

/// `let name` or `let name = expression`, from the `let` at `pos`.
pub open spec fn let_statement(tokens: Seq<TokenView>, pos: int) -> Parsed<StatementView>
    decreases tokens.len() - pos, 7int,
{
    match eat(tokens, advance(tokens, pos), TokenType::Identifier) {
        Err(error) => Err(error),
        Ok((name, next)) => if kind_at(tokens, next) == TokenType::Equal {
            match binary(tokens, next + 1, Level::And) {
                Err(error) => Err(error),
                Ok((value, end)) => Ok((StatementView::Let(name, value), end)),
            }
        } else {
            Ok((StatementView::Let(name, implied_nil(tokens[next])), next))
        },
    }
}

/// The names of a parameter list, comma-separated, after `found`.
pub open spec fn parameters(tokens: Seq<TokenView>, pos: int, found: Seq<TokenView>) -> Parsed<
    Seq<TokenView>,
>
    decreases tokens.len() - pos, 2int,
{
    match eat(tokens, pos, TokenType::Identifier) {
        Err(error) => Err(error),
        Ok((name, next)) => if kind_at(tokens, next) == TokenType::Comma {
            parameters(tokens, next + 1, found.push(name))
        } else {
            Ok((found.push(name), next))
        },
    }
}

/// `func name ( parameters? ) block`, from the `func` at `pos`.
pub open spec fn function_statement(tokens: Seq<TokenView>, pos: int) -> Parsed<FunctionView>
    decreases tokens.len() - pos, 7int,
{
    match eat(tokens, advance(tokens, pos), TokenType::Identifier) {
        Err(error) => Err(error),
        Ok((name, after_name)) => match eat(tokens, after_name, TokenType::OpenParen) {
            Err(error) => Err(error),
            Ok((_, after_open)) => {
                let listed = if kind_at(tokens, after_open) != TokenType::CloseParen && kind_at(
                    tokens,
                    after_open,
                ) != TokenType::EOF {
                    parameters(tokens, after_open, Seq::empty())
                } else {
                    Ok((Seq::empty(), after_open))
                };
                match listed {
                    Err(error) => Err(error),
                    Ok((names, after_names)) => match eat(
                        tokens,
                        after_names,
                        TokenType::CloseParen,
                    ) {
                        Err(error) => Err(error),
                        Ok((_, after_close)) => if pos < after_close <= tokens.len() {
                            match block_expression(tokens, after_close) {
                                Err(error) => Err(error),
                                Ok((body, end)) => Ok(
                                    (
                                        FunctionView {
                                            identifier: name,
                                            paramiters: names,
                                            block: body,
                                            is_builtin: false,
                                        },
                                        end,
                                    ),
                                ),
                            }
                        } else {
                            Err(unexpected(tokens[pos]))
                        },
                    },
                }
            },
        },
    }
}

/// Expressions separated by commas, at least one, after `found`.
pub open spec fn arguments(tokens: Seq<TokenView>, pos: int, found: Seq<ExpressionView>) -> Parsed<
    Seq<ExpressionView>,
>
    decreases tokens.len() - pos, 27int,
{
    match binary(tokens, pos, Level::And) {
        Err(error) => Err(error),
        Ok((value, next)) => if kind_at(tokens, next) == TokenType::Comma {
            if pos <= next < tokens.len() {
                arguments(tokens, next + 1, found.push(value))
            } else {
                Err(unexpected(tokens[pos]))
            }
        } else {
            Ok((found.push(value), next))
        },
    }
}

/// The arguments of a built-in statement of kind `kind`, from behind its `(`:
/// a name for `read` and `pop`, expressions for `write`, an expression, a comma
/// and a name for `push`.
pub open spec fn builtin_arguments(tokens: Seq<TokenView>, pos: int, kind: TokenType) -> Parsed<
    (BuiltinFunction, Seq<ExpressionView>),
>
    decreases tokens.len() - pos, 28int,
{
    if kind == TokenType::Write {
        match arguments(tokens, pos, Seq::empty()) {
            Err(error) => Err(error),
            Ok((values, next)) => Ok(((BuiltinFunction::Write, values), next)),
        }
    } else if kind == TokenType::Push {
        match binary(tokens, pos, Level::And) {
            Err(error) => Err(error),
            Ok((value, after_value)) => match eat(tokens, after_value, TokenType::Comma) {
                Err(error) => Err(error),
                Ok((_, after_comma)) => match eat(tokens, after_comma, TokenType::Identifier) {
                    Err(error) => Err(error),
                    Ok((name, next)) => Ok(
                        (
                            (BuiltinFunction::Push, seq![value, ExpressionView::Identifier(name)]),
                            next,
                        ),
                    ),
                },
            },
        }
    } else {
        match eat(tokens, pos, TokenType::Identifier) {
            Err(error) => Err(error),
            Ok((name, next)) => Ok(
                (
                    (
                        if kind == TokenType::Read {
                            BuiltinFunction::Read
                        } else {
                            BuiltinFunction::Pop
                        },
                        seq![ExpressionView::Identifier(name)],
                    ),
                    next,
                ),
            ),
        }
    }
}

/// A built-in statement from its keyword at `pos`: `read(name)`,
/// `write(expression, ...)`, `push(expression, name)` or `pop(name)`.
pub open spec fn builtin_function_statement(tokens: Seq<TokenView>, pos: int) -> Parsed<
    StatementView,
>
    decreases tokens.len() - pos, 7int,
{
    match eat(tokens, advance(tokens, pos), TokenType::OpenParen) {
        Err(error) => Err(error),
        Ok((_, inside)) => if pos < inside <= tokens.len() {
            match builtin_arguments(tokens, inside, kind_at(tokens, pos)) {
                Err(error) => Err(error),
                Ok(((builtin, values), next)) => match eat(tokens, next, TokenType::CloseParen) {
                    Err(error) => Err(error),
                    Ok((_, end)) => Ok((StatementView::BuiltinFunction(builtin, values), end)),
                },
            }
        } else {
            Err(unexpected(tokens[pos]))
        },
    }
}

/// `{ statement* }`, from the `{` at `pos`.
pub open spec fn block_expression(tokens: Seq<TokenView>, pos: int) -> Parsed<Seq<StatementView>>
    decreases tokens.len() - pos, 0int,
{
    match eat(tokens, pos, TokenType::OpenCurly) {
        Err(error) => Err(error),
        Ok((_, inside)) => match block_rest(tokens, inside, Seq::empty()) {
            Err(error) => Err(error),
            Ok((statements, next)) => match eat(tokens, next, TokenType::CloseCurly) {
                Err(error) => Err(error),
                Ok((_, end)) => Ok((statements, end)),
            },
        },
    }
}

/// The `else` parts that follow an `if` and its block: each is `else` before a
/// block or before another `if`; of several, the last one counts.
pub open spec fn else_chain(tokens: Seq<TokenView>, pos: int, found: Option<Box<ElseView>>) -> Parsed<
    Option<Box<ElseView>>,
>
    decreases tokens.len() - pos, 24int,
{
    if kind_at(tokens, pos) == TokenType::Else {
        if kind_at(tokens, pos + 1) == TokenType::If {
            match if_expression(tokens, pos + 1) {
                Err(error) => Err(error),
                Ok((nested, next)) => if pos < next <= tokens.len() {
                    else_chain(tokens, next, Some(Box::new(ElseView::If(nested))))
                } else {
                    Err(unexpected(tokens[pos]))
                },
            }
        } else {
            match block_expression(tokens, pos + 1) {
                Err(error) => Err(error),
                Ok((block, next)) => if pos < next <= tokens.len() {
                    else_chain(tokens, next, Some(Box::new(ElseView::Block(block))))
                } else {
                    Err(unexpected(tokens[pos]))
                },
            }
        }
    } else {
        Ok((found, pos))
    }
}

/// `if expression block` and the `else` parts, from the `if` at `pos`.
pub open spec fn if_expression(tokens: Seq<TokenView>, pos: int) -> Parsed<IfView>
    decreases tokens.len() - pos, 0int,
{
    match eat(tokens, pos, TokenType::If) {
        Err(error) => Err(error),
        Ok((_, inside)) => match binary(tokens, inside, Level::And) {
            Err(error) => Err(error),
            Ok((condition, after_condition)) => if pos < after_condition <= tokens.len() {
                match block_expression(tokens, after_condition) {
                    Err(error) => Err(error),
                    Ok((if_block, after_block)) => if pos < after_block <= tokens.len() {
                        match else_chain(tokens, after_block, None) {
                            Err(error) => Err(error),
                            Ok((else_block, end)) => Ok(
                                (
                                    IfView { condition: Box::new(condition), if_block, else_block },
                                    end,
                                ),
                            ),
                        }
                    } else {
                        Err(unexpected(tokens[pos]))
                    },
                }
            } else {
                Err(unexpected(tokens[pos]))
            },
        },
    }
}

/// One operand of an operator of `level`: an expression of the next tighter
/// level, or below the tightest a unary expression.
pub open spec fn operand(tokens: Seq<TokenView>, pos: int, level: Level) -> Parsed<ExpressionView>
    decreases tokens.len() - pos, 11 + 2 * level.height(),
{
    match level {
        Level::And => binary(tokens, pos, Level::Or),
        Level::Or => binary(tokens, pos, Level::Equality),
        Level::Equality => binary(tokens, pos, Level::Comparison),
        Level::Comparison => binary(tokens, pos, Level::Additive),
        Level::Additive => binary(tokens, pos, Level::Multiplicative),
        Level::Multiplicative => unary(tokens, pos),
    }
}

/// `operand (operator operand)*` for the operators of `level`, grouped to the left.
pub open spec fn binary(tokens: Seq<TokenView>, pos: int, level: Level) -> Parsed<ExpressionView>
    decreases tokens.len() - pos, 12 + 2 * level.height(),
{
    match operand(tokens, pos, level) {
        Err(error) => Err(error),
        Ok((left, next)) => if pos <= next <= tokens.len() {
            binary_rest(tokens, next, level, left)
        } else {
            Err(unexpected(tokens[pos]))
        },
    }
}

/// `(operator operand)*` behind the operand `left`.
pub open spec fn binary_rest(tokens: Seq<TokenView>, pos: int, level: Level, left: ExpressionView) -> Parsed<
    ExpressionView,
>
    decreases tokens.len() - pos, 3int,
{
    if level.has(kind_at(tokens, pos)) {
        match operand(tokens, pos + 1, level) {
            Err(error) => Err(error),
            Ok((right, next)) => if pos < next <= tokens.len() {
                binary_rest(
                    tokens,
                    next,
                    level,
                    ExpressionView::Binary(Box::new(left), tokens[pos], Box::new(right)),
                )
            } else {
                Err(unexpected(tokens[pos]))
            },
        }
    } else {
        Ok((left, pos))
    }
}

/// `('-' | '!')? primary`.
pub open spec fn unary(tokens: Seq<TokenView>, pos: int) -> Parsed<ExpressionView>
    decreases tokens.len() - pos, 5int,
{
    if kind_at(tokens, pos) == TokenType::Minus || kind_at(tokens, pos) == TokenType::Not {
        match primary(tokens, pos + 1) {
            Err(error) => Err(error),
            Ok((right, next)) => Ok((ExpressionView::Unary(tokens[pos], Box::new(right)), next)),
        }
    } else {
        primary(tokens, pos)
    }
}

/// The items of an array literal, comma-separated, after `found`.
pub open spec fn array_items(tokens: Seq<TokenView>, pos: int, found: Seq<TokenView>) -> Parsed<
    Seq<TokenView>,
>
    decreases tokens.len() - pos, 1int,
{
    if is_array_item(kind_at(tokens, pos)) {
        if kind_at(tokens, pos + 1) == TokenType::Comma {
            array_items(tokens, pos + 2, found.push(tokens[pos]))
        } else {
            Ok((found.push(tokens[pos]), pos + 1))
        }
    } else {
        Err(unexpected(tokens[pos]))
    }
}

/// A literal, a name, a call `name(expression, ...)`, an array literal
/// `[item, ...]`, an expression in parentheses, a block or an `if`.
pub open spec fn primary(tokens: Seq<TokenView>, pos: int) -> Parsed<ExpressionView>
    decreases tokens.len() - pos, 4int,
{
    let kind = kind_at(tokens, pos);
    if is_literal(kind) {
        Ok((ExpressionView::Literal(tokens[pos]), pos + 1))
    } else if kind == TokenType::Identifier {
        if kind_at(tokens, pos + 1) == TokenType::OpenParen {
            let listed = if kind_at(tokens, pos + 2) != TokenType::CloseParen {
                arguments(tokens, pos + 2, Seq::empty())
            } else {
                Ok((Seq::empty(), pos + 2))
            };
            match listed {
                Err(error) => Err(error),
                Ok((values, next)) => match eat(tokens, next, TokenType::CloseParen) {
                    Err(error) => Err(error),
                    Ok((_, end)) => Ok((ExpressionView::Call(tokens[pos], values), end)),
                },
            }
        } else {
            Ok((ExpressionView::Identifier(tokens[pos]), pos + 1))
        }
    } else if kind == TokenType::OpenBrack {
        match array_items(tokens, pos + 1, Seq::empty()) {
            Err(error) => Err(error),
            Ok((items, next)) => match eat(tokens, next, TokenType::CloseBrack) {
                Err(error) => Err(error),
                Ok((_, end)) => Ok((ExpressionView::Array(items), end)),
            },
        }
    } else if kind == TokenType::OpenParen {
        match binary(tokens, pos + 1, Level::And) {
            Err(error) => Err(error),
            Ok((child, next)) => match eat(tokens, next, TokenType::CloseParen) {
                Err(error) => Err(error),
                Ok((_, end)) => Ok((ExpressionView::Group(Box::new(child)), end)),
            },
        }
    } else if kind == TokenType::OpenCurly {
        match block_expression(tokens, pos) {
            Err(error) => Err(error),
            Ok((block, next)) => Ok((ExpressionView::Block(block), next)),
        }
    } else if kind == TokenType::If {
        match if_expression(tokens, pos) {
            Err(error) => Err(error),
            Ok((branch, next)) => Ok((ExpressionView::If(branch), next)),
        }
    } else {
        Err(unexpected(tokens[pos]))
    }
}

/// The program that a token sequence spells, or its first parsing error.
pub open spec fn parse(tokens: Seq<TokenView>) -> Result<Seq<StatementView>, ErrorView> {
    match program(tokens, 0, Seq::empty()) {
        Ok((statements, _)) => Ok(statements),
        Err(error) => Err(error),
    }
}

} // verus!
