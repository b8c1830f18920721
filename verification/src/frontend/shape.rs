//! The shape of what the parser builds: operators nest by their levels and
//! group to the left, a prefix operator stands before a primary, which a block
//! and an `if` are too, an array literal holds literal tokens and a built-in
//! statement has the arguments of its kind.

use crate::common::ast::{BuiltinFunction, ElseView, ExpressionView, IfView, StatementView};
use crate::common::token::{TokenType, TokenView};
use crate::frontend::grammar::{
    arguments, array_items, binary, binary_rest, block_expression, block_rest, builtin_arguments,
    builtin_function_statement, eat, else_chain, ends_with_eof, function_statement,
    if_expression, is_array_item, is_builtin, is_literal, kind_at, let_statement, operand,
    parameters, primary, program, statement, unary, Level,
};
use crate::frontend::progress;
use crate::frontend::progress::lemma_eat;
use vstd::prelude::*;

verus! {

/// How tightly a binary operator binds: 0 for `&&`, the loosest, up to 5 for
/// `*`, `/` and `%`; -1 for a token that is no binary operator.
pub open spec fn tightness(ttype: TokenType) -> int {
    match ttype {
        TokenType::And => 0,
        TokenType::Or => 1,
        TokenType::EqualEqual | TokenType::NotEqual => 2,
        TokenType::Greater | TokenType::GreaterEqual | TokenType::Less | TokenType::LessEqual => 3,
        TokenType::Plus | TokenType::Minus => 4,
        TokenType::Star | TokenType::Slash | TokenType::Modulo => 5,
        _ => -1,
    }
}

/// A primary: anything but a binary operator with its operands and a prefix
/// operator with its operand, that is, a literal, a name, a call, an array
/// literal, an expression in parentheses, a block or an `if`.
pub open spec fn is_primary(expression: ExpressionView) -> bool {
    !(expression is Binary) && !(expression is Unary)
}

/// The expression may stand as an operand of an operator of tightness `level`
/// without parentheses: it is a primary, or a prefix operator with its
/// operand, or a binary operator that binds at least as tightly as `level`.
pub open spec fn binds_at_least(expression: ExpressionView, level: int) -> bool {
    match expression {
        ExpressionView::Binary(_, operator, _) => tightness(operator.ttype) >= level,
        ExpressionView::Unary(..) => true,
        _ => is_primary(expression),
    }
}

/// The arguments of a built-in statement are of the shape of its kind: one
/// name for `read` and `pop`, an expression and a name for `push`, at least
/// one expression for `write`.
pub open spec fn builtin_shaped(builtin: BuiltinFunction, values: Seq<ExpressionView>) -> bool {
    match builtin {
        BuiltinFunction::Read => values.len() == 1 && values[0] is Identifier,
        BuiltinFunction::Write => values.len() >= 1,
        BuiltinFunction::Push => values.len() == 2 && values[1] is Identifier,
        BuiltinFunction::Pop => values.len() == 1 && values[0] is Identifier,
    }
}

/// An expression as the grammar builds it.
///
/// The left operand of a binary operator binds at least as tightly as the
/// operator and the right one more tightly: operators of one level group to
/// the left, and a looser operator never stands under a tighter one. The
/// operand of a prefix operator is a primary. An array literal holds numbers,
/// strings and booleans. All parts are of this shape too.
pub open spec fn shaped(expression: ExpressionView) -> bool
    decreases expression,
{
    match expression {
        ExpressionView::Block(statements) => all_shaped(statements),
        ExpressionView::If(branch) => if_shaped(branch),
        ExpressionView::Binary(left, operator, right) => {
            &&& 0 <= tightness(operator.ttype)
            &&& binds_at_least(*left, tightness(operator.ttype))
            &&& binds_at_least(*right, tightness(operator.ttype) + 1)
            &&& shaped(*left)
            &&& shaped(*right)
        },
        ExpressionView::Unary(operator, right) => {
            &&& operator.ttype == TokenType::Minus || operator.ttype == TokenType::Not
            &&& is_primary(*right)
            &&& shaped(*right)
        },
        ExpressionView::Group(child) => shaped(*child),
        ExpressionView::Call(_, values) => forall|i: int|
            0 <= i < values.len() ==> shaped(#[trigger] values[i]),
        ExpressionView::Identifier(_) => true,
        ExpressionView::Literal(_) => true,
        ExpressionView::Array(items) => forall|i: int|
            0 <= i < items.len() ==> is_array_item((#[trigger] items[i]).ttype),
    }
}

/// An `if` as the grammar builds it.
pub open spec fn if_shaped(branch: IfView) -> bool
    decreases branch,
{
    &&& shaped(*branch.condition)
    &&& all_shaped(branch.if_block)
    &&& match branch.else_block {
        None => true,
        Some(part) => else_shaped(*part),
    }
}

/// An `else` part as the grammar builds it.
pub open spec fn else_shaped(part: ElseView) -> bool
    decreases part,
{
    match part {
        ElseView::Block(block) => all_shaped(block),
        ElseView::If(branch) => if_shaped(branch),
    }
}

/// A statement as the grammar builds it.
pub open spec fn statement_shaped(statement: StatementView) -> bool
    decreases statement,
{
    match statement {
        StatementView::Let(_, value) => shaped(value),
        StatementView::Assignment(_, value) => shaped(value),
        StatementView::Function(function) => all_shaped(function.block) && !function.is_builtin,
        StatementView::BuiltinFunction(builtin, values) => {
            &&& builtin_shaped(builtin, values)
            &&& forall|i: int| 0 <= i < values.len() ==> shaped(#[trigger] values[i])
        },
        StatementView::Return(value) => shaped(value),
        StatementView::Expression(value) => shaped(value),
    }
}

/// Statements as the grammar builds them.
pub open spec fn all_shaped(statements: Seq<StatementView>) -> bool
    decreases statements,
{
    forall|i: int| 0 <= i < statements.len() ==> statement_shaped(#[trigger] statements[i])
}

/// The tightness of the operators of a level.
pub open spec fn tightness_of(level: Level) -> int {
    5 - level.height()
}

/// The expressions are all of the shape that the grammar builds.
pub open spec fn expressions_shaped(values: Seq<ExpressionView>) -> bool {
    forall|i: int| 0 <= i < values.len() ==> shaped(#[trigger] values[i])
}

/// The tokens may all stand in an array literal.
pub open spec fn items_only(items: Seq<TokenView>) -> bool {
    forall|i: int| 0 <= i < items.len() ==> is_array_item((#[trigger] items[i]).ttype)
}

/// A program that is read is of the shape described.
pub proof fn lemma_program_shaped(tokens: Seq<TokenView>, pos: int, found: Seq<StatementView>)
    requires
        ends_with_eof(tokens),
        0 <= pos < tokens.len(),
        all_shaped(found),
    ensures
        program(tokens, pos, found) is Ok ==> all_shaped(program(tokens, pos, found)->Ok_0.0),
    decreases tokens.len() - pos, 30int,
{
    if kind_at(tokens, pos) != TokenType::EOF {
        progress::lemma_statement(tokens, pos);
        lemma_statement_shaped(tokens, pos);
        if let Ok((first, next)) = statement(tokens, pos) {
            lemma_program_shaped(tokens, next, found.push(first));
        }
    }
}

/// The statements of a block that are read are of the shape described.
pub proof fn lemma_block_rest_shaped(tokens: Seq<TokenView>, pos: int, found: Seq<StatementView>)
    requires
        ends_with_eof(tokens),
        0 <= pos < tokens.len(),
        all_shaped(found),
    ensures
        block_rest(tokens, pos, found) is Ok ==> all_shaped(
            block_rest(tokens, pos, found)->Ok_0.0,
        ),
    decreases tokens.len() - pos, 29int,
{
    if kind_at(tokens, pos) != TokenType::CloseCurly && kind_at(tokens, pos) != TokenType::EOF {
        progress::lemma_statement(tokens, pos);
        lemma_statement_shaped(tokens, pos);
        if let Ok((first, next)) = statement(tokens, pos) {
            lemma_block_rest_shaped(tokens, next, found.push(first));
        }
    }
}

/// A statement that is read is of the shape described.
pub proof fn lemma_statement_shaped(tokens: Seq<TokenView>, pos: int)
    requires
        ends_with_eof(tokens),
        0 <= pos < tokens.len(),
    ensures
        statement(tokens, pos) is Ok ==> statement_shaped(statement(tokens, pos)->Ok_0.0),
    decreases tokens.len() - pos, 28int,
{
    let kind = kind_at(tokens, pos);
    if kind == TokenType::Func {
        lemma_function_statement_shaped(tokens, pos);
    } else if kind == TokenType::Let {
        lemma_let_statement_shaped(tokens, pos);
    } else if kind == TokenType::Return {
        lemma_binary_shaped(tokens, pos + 1, Level::And);
    } else if kind == TokenType::OpenCurly {
        lemma_block_expression_shaped(tokens, pos);
    } else if kind == TokenType::If {
        lemma_if_expression_shaped(tokens, pos);
    } else if is_builtin(kind) {
        lemma_builtin_function_statement_shaped(tokens, pos);
    } else if kind == TokenType::Identifier && kind_at(tokens, pos + 1) == TokenType::Equal {
        lemma_binary_shaped(tokens, pos + 2, Level::And);
    } else {
        lemma_binary_shaped(tokens, pos, Level::And);
    }
}

/// A declaration that is read is of the shape described.
pub proof fn lemma_let_statement_shaped(tokens: Seq<TokenView>, pos: int)
    requires
        ends_with_eof(tokens),
        0 <= pos < tokens.len(),
        kind_at(tokens, pos) == TokenType::Let,
    ensures
        let_statement(tokens, pos) is Ok ==> statement_shaped(let_statement(tokens, pos)->Ok_0.0),
    decreases tokens.len() - pos, 7int,
{
    lemma_eat(tokens, pos + 1, TokenType::Identifier);
    if let Ok((_, next)) = eat(tokens, pos + 1, TokenType::Identifier) {
        if kind_at(tokens, next) == TokenType::Equal {
            lemma_binary_shaped(tokens, next + 1, Level::And);
        }
    }
}

/// A function definition that is read is of the shape described.
pub proof fn lemma_function_statement_shaped(tokens: Seq<TokenView>, pos: int)
    requires
        ends_with_eof(tokens),
        0 <= pos < tokens.len(),
        kind_at(tokens, pos) == TokenType::Func,
    ensures
        function_statement(tokens, pos) is Ok ==> statement_shaped(
            StatementView::Function(function_statement(tokens, pos)->Ok_0.0),
        ),
    decreases tokens.len() - pos, 7int,
{
    lemma_eat(tokens, pos + 1, TokenType::Identifier);
    if let Ok((_, after_name)) = eat(tokens, pos + 1, TokenType::Identifier) {
        lemma_eat(tokens, after_name, TokenType::OpenParen);
        if let Ok((_, after_open)) = eat(tokens, after_name, TokenType::OpenParen) {
            let listed = if kind_at(tokens, after_open) != TokenType::CloseParen && kind_at(
                tokens,
                after_open,
            ) != TokenType::EOF {
                parameters(tokens, after_open, Seq::empty())
            } else {
                Ok((Seq::empty(), after_open))
            };
            progress::lemma_parameters(tokens, after_open, Seq::empty());
            if let Ok((_, after_names)) = listed {
                lemma_eat(tokens, after_names, TokenType::CloseParen);
                if let Ok((_, after_close)) = eat(tokens, after_names, TokenType::CloseParen) {
                    lemma_block_expression_shaped(tokens, after_close);
                }
            }
        }
    }
}

/// An argument list that is read is of the shape described.
pub proof fn lemma_arguments_shaped(tokens: Seq<TokenView>, pos: int, found: Seq<ExpressionView>)
    requires
        ends_with_eof(tokens),
        0 <= pos < tokens.len(),
        expressions_shaped(found),
    ensures
        arguments(tokens, pos, found) is Ok ==> expressions_shaped(
            arguments(tokens, pos, found)->Ok_0.0,
        ) && arguments(tokens, pos, found)->Ok_0.0.len() > found.len(),
    decreases tokens.len() - pos, 27int,
{
    progress::lemma_binary(tokens, pos, Level::And);
    lemma_binary_shaped(tokens, pos, Level::And);
    if let Ok((value, next)) = binary(tokens, pos, Level::And) {
        if kind_at(tokens, next) == TokenType::Comma {
            lemma_arguments_shaped(tokens, next + 1, found.push(value));
        }
    }
}

/// The arguments of a built-in statement that are read are of the shape described.
pub proof fn lemma_builtin_arguments_shaped(tokens: Seq<TokenView>, pos: int, kind: TokenType)
    requires
        ends_with_eof(tokens),
        0 <= pos < tokens.len(),
        is_builtin(kind),
    ensures
        builtin_arguments(tokens, pos, kind) is Ok ==> statement_shaped(
            StatementView::BuiltinFunction(
                builtin_arguments(tokens, pos, kind)->Ok_0.0.0,
                builtin_arguments(tokens, pos, kind)->Ok_0.0.1,
            ),
        ),
    decreases tokens.len() - pos, 28int,
{
    if kind == TokenType::Write {
        lemma_arguments_shaped(tokens, pos, Seq::empty());
    } else if kind == TokenType::Push {
        progress::lemma_binary(tokens, pos, Level::And);
        lemma_binary_shaped(tokens, pos, Level::And);
    }
}

/// A built-in statement that is read is of the shape described.
pub proof fn lemma_builtin_function_statement_shaped(tokens: Seq<TokenView>, pos: int)
    requires
        ends_with_eof(tokens),
        0 <= pos < tokens.len(),
        is_builtin(kind_at(tokens, pos)),
    ensures
        builtin_function_statement(tokens, pos) is Ok ==> statement_shaped(
            builtin_function_statement(tokens, pos)->Ok_0.0,
        ),
    decreases tokens.len() - pos, 7int,
{
    lemma_eat(tokens, pos + 1, TokenType::OpenParen);
    if let Ok((_, inside)) = eat(tokens, pos + 1, TokenType::OpenParen) {
        lemma_builtin_arguments_shaped(tokens, inside, kind_at(tokens, pos));
    }
}

/// A block that is read is of the shape described.
pub proof fn lemma_block_expression_shaped(tokens: Seq<TokenView>, pos: int)
    requires
        ends_with_eof(tokens),
        0 <= pos < tokens.len(),
    ensures
        block_expression(tokens, pos) is Ok ==> all_shaped(block_expression(tokens, pos)->Ok_0.0),
    decreases tokens.len() - pos, 0int,
{
    lemma_eat(tokens, pos, TokenType::OpenCurly);
    if let Ok((_, inside)) = eat(tokens, pos, TokenType::OpenCurly) {
        lemma_block_rest_shaped(tokens, inside, Seq::empty());
    }
}

/// The `else` parts of an `if` that are read are of the shape described.
pub proof fn lemma_else_chain_shaped(
    tokens: Seq<TokenView>,
    pos: int,
    found: Option<Box<ElseView>>,
)
    requires
        ends_with_eof(tokens),
        0 <= pos < tokens.len(),
        found is Some ==> else_shaped(*found->Some_0),
    ensures
        else_chain(tokens, pos, found) matches Ok((Some(part), _)) ==> else_shaped(*part),
    decreases tokens.len() - pos, 24int,
{
    if kind_at(tokens, pos) == TokenType::Else {
        if kind_at(tokens, pos + 1) == TokenType::If {
            progress::lemma_if_expression(tokens, pos + 1);
            lemma_if_expression_shaped(tokens, pos + 1);
            if let Ok((nested, next)) = if_expression(tokens, pos + 1) {
                lemma_else_chain_shaped(tokens, next, Some(Box::new(ElseView::If(nested))));
            }
        } else {
            progress::lemma_block_expression(tokens, pos + 1);
            lemma_block_expression_shaped(tokens, pos + 1);
            if let Ok((block, next)) = block_expression(tokens, pos + 1) {
                lemma_else_chain_shaped(tokens, next, Some(Box::new(ElseView::Block(block))));
            }
        }
    }
}

/// An `if` that is read is of the shape described.
pub proof fn lemma_if_expression_shaped(tokens: Seq<TokenView>, pos: int)
    requires
        ends_with_eof(tokens),
        0 <= pos < tokens.len(),
    ensures
        if_expression(tokens, pos) is Ok ==> if_shaped(if_expression(tokens, pos)->Ok_0.0),
    decreases tokens.len() - pos, 0int,
{
    lemma_eat(tokens, pos, TokenType::If);
    if let Ok((_, inside)) = eat(tokens, pos, TokenType::If) {
        progress::lemma_binary(tokens, inside, Level::And);
        lemma_binary_shaped(tokens, inside, Level::And);
        if let Ok((_, after_condition)) = binary(tokens, inside, Level::And) {
            progress::lemma_block_expression(tokens, after_condition);
            lemma_block_expression_shaped(tokens, after_condition);
            if let Ok((_, after_block)) = block_expression(tokens, after_condition) {
                lemma_else_chain_shaped(tokens, after_block, None);
            }
        }
    }
}

/// An operand that is read is of the shape described.
pub proof fn lemma_operand_shaped(tokens: Seq<TokenView>, pos: int, level: Level)
    requires
        ends_with_eof(tokens),
        0 <= pos < tokens.len(),
    ensures
        operand(tokens, pos, level) is Ok ==> {
            &&& shaped(operand(tokens, pos, level)->Ok_0.0)
            &&& binds_at_least(operand(tokens, pos, level)->Ok_0.0, tightness_of(level) + 1)
        },
    decreases tokens.len() - pos, 11 + 2 * level.height(),
{
    match level {
        Level::And => lemma_binary_shaped(tokens, pos, Level::Or),
        Level::Or => lemma_binary_shaped(tokens, pos, Level::Equality),
        Level::Equality => lemma_binary_shaped(tokens, pos, Level::Comparison),
        Level::Comparison => lemma_binary_shaped(tokens, pos, Level::Additive),
        Level::Additive => lemma_binary_shaped(tokens, pos, Level::Multiplicative),
        Level::Multiplicative => lemma_unary_shaped(tokens, pos),
    }
}

/// The operators of a level, over operands of the tighter levels, grouped to
/// the left.
pub proof fn lemma_binary_shaped(tokens: Seq<TokenView>, pos: int, level: Level)
    requires
        ends_with_eof(tokens),
        0 <= pos < tokens.len(),
    ensures
        binary(tokens, pos, level) is Ok ==> {
            &&& shaped(binary(tokens, pos, level)->Ok_0.0)
            &&& binds_at_least(binary(tokens, pos, level)->Ok_0.0, tightness_of(level))
        },
    decreases tokens.len() - pos, 12 + 2 * level.height(),
{
    progress::lemma_operand(tokens, pos, level);
    lemma_operand_shaped(tokens, pos, level);
    if let Ok((left, next)) = operand(tokens, pos, level) {
        lemma_binds_looser(left, tightness_of(level));
        lemma_binary_rest_shaped(tokens, next, level, left);
    }
}

/// What may stand at a tighter level may stand at a looser one.
proof fn lemma_binds_looser(expression: ExpressionView, level: int)
    requires
        binds_at_least(expression, level + 1),
    ensures
        binds_at_least(expression, level),
{
}

/// The rest of a run of binary operators that is read is of the shape described.
pub proof fn lemma_binary_rest_shaped(
    tokens: Seq<TokenView>,
    pos: int,
    level: Level,
    left: ExpressionView,
)
    requires
        ends_with_eof(tokens),
        0 <= pos < tokens.len(),
        shaped(left),
        binds_at_least(left, tightness_of(level)),
    ensures
        binary_rest(tokens, pos, level, left) is Ok ==> {
            &&& shaped(binary_rest(tokens, pos, level, left)->Ok_0.0)
            &&& binds_at_least(binary_rest(tokens, pos, level, left)->Ok_0.0, tightness_of(level))
        },
    decreases tokens.len() - pos, 3int,
{
    if level.has(kind_at(tokens, pos)) {
        progress::lemma_operand(tokens, pos + 1, level);
        lemma_operand_shaped(tokens, pos + 1, level);
        if let Ok((right, next)) = operand(tokens, pos + 1, level) {
            let joined = ExpressionView::Binary(Box::new(left), tokens[pos], Box::new(right));
            assert(tightness(tokens[pos].ttype) == tightness_of(level));
            assert(shaped(joined));
            lemma_binary_rest_shaped(tokens, next, level, joined);
        }
    }
}

/// A unary expression that is read is of the shape described.
pub proof fn lemma_unary_shaped(tokens: Seq<TokenView>, pos: int)
    requires
        ends_with_eof(tokens),
        0 <= pos < tokens.len(),
    ensures
        unary(tokens, pos) is Ok ==> {
            &&& shaped(unary(tokens, pos)->Ok_0.0)
            &&& unary(tokens, pos)->Ok_0.0 is Unary || is_primary(unary(tokens, pos)->Ok_0.0)
        },
    decreases tokens.len() - pos, 5int,
{
    if kind_at(tokens, pos) == TokenType::Minus || kind_at(tokens, pos) == TokenType::Not {
        lemma_primary_shaped(tokens, pos + 1);
    } else {
        lemma_primary_shaped(tokens, pos);
    }
}

/// The items of an array literal that are read are of the shape described.
pub proof fn lemma_array_items_shaped(tokens: Seq<TokenView>, pos: int, found: Seq<TokenView>)
    requires
        ends_with_eof(tokens),
        0 <= pos < tokens.len(),
        items_only(found),
    ensures
        array_items(tokens, pos, found) is Ok ==> items_only(
            array_items(tokens, pos, found)->Ok_0.0,
        ),
    decreases tokens.len() - pos, 1int,
{
    if is_array_item(kind_at(tokens, pos)) {
        if kind_at(tokens, pos + 1) == TokenType::Comma {
            lemma_array_items_shaped(tokens, pos + 2, found.push(tokens[pos]));
        }
    }
}

/// A primary that is read is of the shape described.
pub proof fn lemma_primary_shaped(tokens: Seq<TokenView>, pos: int)
    requires
        ends_with_eof(tokens),
        0 <= pos < tokens.len(),
    ensures
        primary(tokens, pos) is Ok ==> {
            &&& shaped(primary(tokens, pos)->Ok_0.0)
            &&& is_primary(primary(tokens, pos)->Ok_0.0)
        },
    decreases tokens.len() - pos, 4int,
{
    let kind = kind_at(tokens, pos);
    if is_literal(kind) {
    } else if kind == TokenType::Identifier {
        if kind_at(tokens, pos + 1) == TokenType::OpenParen {
            if kind_at(tokens, pos + 2) != TokenType::CloseParen {
                lemma_arguments_shaped(tokens, pos + 2, Seq::empty());
            }
        }
    } else if kind == TokenType::OpenBrack {
        lemma_array_items_shaped(tokens, pos + 1, Seq::empty());
    } else if kind == TokenType::OpenParen {
        lemma_binary_shaped(tokens, pos + 1, Level::And);
    } else if kind == TokenType::OpenCurly {
        lemma_block_expression_shaped(tokens, pos);
    } else if kind == TokenType::If {
        lemma_if_expression_shaped(tokens, pos);
    }
}

/// Every program that the parser gives is of the shape described: its
/// operators nest by their levels and group to the left, and the built-in
/// statements and array literals in it hold what their kinds ask for.
pub proof fn lemma_parsed_is_shaped(tokens: Seq<TokenView>)
    requires
        ends_with_eof(tokens),
    ensures
        crate::frontend::grammar::parse(tokens) is Ok ==> all_shaped(
            crate::frontend::grammar::parse(tokens)->Ok_0,
        ),
{
    lemma_program_shaped(tokens, 0, Seq::empty());
}

/// Every program that scanning and parsing a source text gives is of the
/// shape described.
pub proof fn lemma_program_of_is_shaped(source: Seq<char>, path: Seq<char>)
    ensures
        crate::frontend::parser::program_of(source, path) is Ok ==> all_shaped(
            crate::frontend::parser::program_of(source, path)->Ok_0,
        ),
{
    crate::frontend::lexer::lemma_ends_with_eof(source, path, 0, 1, Seq::empty());
    if let Ok(tokens) = crate::frontend::lexer::lex_all(source, path) {
        lemma_parsed_is_shaped(tokens);
    }
}

} // verus!
