//! The syntax tree that the parser builds and the evaluator walks.

use super::token::{clone_tokens, tokens_view, Token, TokenView};
use vstd::prelude::*;

verus! {

/// A program is its statements in source order.
pub type Program = Vec<Statement>;

#[derive(Debug)]
pub enum Statement {
    Let(LetStatement),
    Assignment(AssignmentStatement),
    Function(FunctionStatement),
    BuiltinFunction(BuiltinFunctionStatement),
    Return(Expression),
    Expression(Expression),
}

/// The four statements that the language provides by itself.
#[derive(Clone, Copy, Debug, PartialEq, Eq, Structural)]
pub enum BuiltinFunction {
    Read,
    Write,
    Push,
    Pop,
}

/// What follows `else`: a block, or another `if`.
#[derive(Debug)]
pub enum ElseBlock {
    Block(BlockExpression),
    If(IfExpression),
}

#[derive(Debug)]
pub struct LetStatement {
    pub identifier: Token,
    pub expression: Expression,
}

#[derive(Debug)]
pub struct AssignmentStatement {
    pub identifier: Token,
    pub expression: Expression,
}

#[derive(Debug)]
pub struct BlockExpression {
    pub statements: Box<Vec<Statement>>,
}

#[derive(Debug)]
pub struct IfExpression {
    pub condition: Box<Expression>,
    pub if_block: BlockExpression,
    pub else_block: Box<Option<ElseBlock>>,
}

#[derive(Debug)]
pub struct FunctionStatement {
    pub identifier: Token,
    pub paramiters: Vec<Token>,
    pub block: BlockExpression,
    pub is_builtin: bool,
}

#[derive(Debug)]
pub struct BuiltinFunctionStatement {
    pub builtin_function: BuiltinFunction,
    pub arguments: Vec<Expression>,
}

#[derive(Debug)]
pub enum Expression {
    Block(BlockExpression),
    If(IfExpression),
    Binary(BinaryExpression),
    Unary(UnaryExpression),
    Group(GroupExpression),
    Call(CallExpression),
    Identifier(IdentifierExpression),
    Literal(LiteralExpression),
    Array(ArrayExpression),
}

#[derive(Debug)]
pub struct BinaryExpression {
    pub left: Box<Expression>,
    pub operator: Token,
    pub right: Box<Expression>,
}

#[derive(Debug)]
pub struct UnaryExpression {
    pub operator: Token,
    pub right: Box<Expression>,
}

#[derive(Debug)]
pub struct GroupExpression {
    pub child: Box<Expression>,
}

#[derive(Debug)]
pub struct CallExpression {
    pub identifier: Token,
    pub arguments: Vec<Expression>,
}

#[derive(Debug)]
pub struct IdentifierExpression {
    pub identifier: Token,
}

#[derive(Debug)]
pub struct LiteralExpression {
    pub object: Token,
}

#[derive(Debug)]
pub struct ArrayExpression {
    pub objects: Vec<Token>,
}

/// The mathematical value of a [`Statement`].
pub enum StatementView {
    Let(TokenView, ExpressionView),
    Assignment(TokenView, ExpressionView),
    Function(FunctionView),
    BuiltinFunction(BuiltinFunction, Seq<ExpressionView>),
    Return(ExpressionView),
    Expression(ExpressionView),
}

/// The mathematical value of a [`FunctionStatement`].
pub struct FunctionView {
    pub identifier: TokenView,
    pub paramiters: Seq<TokenView>,
    pub block: Seq<StatementView>,
    pub is_builtin: bool,
}

/// The mathematical value of an [`IfExpression`].
pub struct IfView {
    pub condition: Box<ExpressionView>,
    pub if_block: Seq<StatementView>,
    pub else_block: Option<Box<ElseView>>,
}

/// The mathematical value of an [`ElseBlock`].
pub enum ElseView {
    Block(Seq<StatementView>),
    If(IfView),
}

/// The mathematical value of an [`Expression`]. A block is its statements.
pub enum ExpressionView {
    Block(Seq<StatementView>),
    If(IfView),
    Binary(Box<ExpressionView>, TokenView, Box<ExpressionView>),
    Unary(TokenView, Box<ExpressionView>),
    Group(Box<ExpressionView>),
    Call(TokenView, Seq<ExpressionView>),
    Identifier(TokenView),
    Literal(TokenView),
    Array(Seq<TokenView>),
}

/// The values of a sequence of statements.
pub open spec fn statements_view(statements: Seq<Statement>) -> Seq<StatementView>
    decreases statements,
{
    Seq::new(
        statements.len(),
        |i: int|
            if 0 <= i < statements.len() {
                statements[i].view()
            } else {
                StatementView::Expression(ExpressionView::Block(Seq::empty()))
            },
    )
}

/// The values of a sequence of expressions.
pub open spec fn expressions_view(expressions: Seq<Expression>) -> Seq<ExpressionView>
    decreases expressions,
{
    Seq::new(
        expressions.len(),
        |i: int|
            if 0 <= i < expressions.len() {
                expressions[i].view()
            } else {
                ExpressionView::Block(Seq::empty())
            },
    )
}

/// The value of an optional `else` part.
pub open spec fn else_view(else_block: Option<ElseBlock>) -> Option<Box<ElseView>>
    decreases else_block,
{
    match else_block {
        Some(part) => Some(Box::new(part.view())),
        None => None,
    }
}

impl Statement {
    pub open spec fn view(&self) -> StatementView
        decreases self,
    {
        match self {
            Statement::Let(statement) => StatementView::Let(
                statement.identifier@,
                statement.expression.view(),
            ),
            Statement::Assignment(statement) => StatementView::Assignment(
                statement.identifier@,
                statement.expression.view(),
            ),
            Statement::Function(function) => StatementView::Function(function.view()),
            Statement::BuiltinFunction(call) => StatementView::BuiltinFunction(
                call.builtin_function,
                expressions_view(call.arguments@),
            ),
            Statement::Return(expression) => StatementView::Return(expression.view()),
            Statement::Expression(expression) => StatementView::Expression(expression.view()),
        }
    }
}

impl FunctionStatement {
    pub open spec fn view(&self) -> FunctionView
        decreases self,
    {
        FunctionView {
            identifier: self.identifier@,
            paramiters: tokens_view(self.paramiters@),
            block: self.block.view(),
            is_builtin: self.is_builtin,
        }
    }
}

impl BlockExpression {
    pub open spec fn view(&self) -> Seq<StatementView>
        decreases self,
    {
        statements_view(self.statements@)
    }
}

impl IfExpression {
    pub open spec fn view(&self) -> IfView
        decreases self,
    {
        IfView {
            condition: Box::new(self.condition.view()),
            if_block: self.if_block.view(),
            else_block: else_view(*self.else_block),
        }
    }
}

impl ElseBlock {
    pub open spec fn view(&self) -> ElseView
        decreases self,
    {
        match self {
            ElseBlock::Block(block) => ElseView::Block(block.view()),
            ElseBlock::If(if_expression) => ElseView::If(if_expression.view()),
        }
    }
}

impl Expression {
    pub open spec fn view(&self) -> ExpressionView
        decreases self,
    {
        match self {
            Expression::Block(block) => ExpressionView::Block(block.view()),
            Expression::If(if_expression) => ExpressionView::If(if_expression.view()),
            Expression::Binary(binary) => ExpressionView::Binary(
                Box::new(binary.left.view()),
                binary.operator@,
                Box::new(binary.right.view()),
            ),
            Expression::Unary(unary) => ExpressionView::Unary(
                unary.operator@,
                Box::new(unary.right.view()),
            ),
            Expression::Group(group) => ExpressionView::Group(Box::new(group.child.view())),
            Expression::Call(call) => ExpressionView::Call(
                call.identifier@,
                expressions_view(call.arguments@),
            ),
            Expression::Identifier(name) => ExpressionView::Identifier(name.identifier@),
            Expression::Literal(literal) => ExpressionView::Literal(literal.object@),
            Expression::Array(array) => ExpressionView::Array(tokens_view(array.objects@)),
        }
    }
}

impl LetStatement {
    pub fn new(identifier: Token, expression: Expression) -> (statement: Self)
        ensures
            statement.identifier == identifier,
            statement.expression == expression,
    {
        Self { identifier, expression }
    }
}

impl AssignmentStatement {
    pub fn new(identifier: Token, expression: Expression) -> (statement: Self)
        ensures
            statement.identifier == identifier,
            statement.expression == expression,
    {
        Self { identifier, expression }
    }
}

impl BlockExpression {
    pub fn new(statements: Vec<Statement>) -> (block: Self)
        ensures
            *block.statements == statements,
            block@ == statements_view(statements@),
    {
        Self { statements: Box::new(statements) }
    }
}

impl IfExpression {
    pub fn new(
        condition: Expression,
        if_block: BlockExpression,
        else_block: Option<ElseBlock>,
    ) -> (expression: Self)
        ensures
            *expression.condition == condition,
            expression.if_block == if_block,
            *expression.else_block == else_block,
    {
        Self { condition: Box::new(condition), if_block, else_block: Box::new(else_block) }
    }
}

impl FunctionStatement {
    pub fn new(
        identifier: Token,
        paramiters: Vec<Token>,
        block: BlockExpression,
        is_builtin: bool,
    ) -> (function: Self)
        ensures
            function.identifier == identifier,
            function.paramiters == paramiters,
            function.block == block,
            function.is_builtin == is_builtin,
    {
        Self { identifier, paramiters, block, is_builtin }
    }
}

impl BuiltinFunctionStatement {
    pub fn new(builtin_function: BuiltinFunction, arguments: Vec<Expression>) -> (statement: Self)
        ensures
            statement.builtin_function == builtin_function,
            statement.arguments == arguments,
    {
        Self { builtin_function, arguments }
    }
}

impl BinaryExpression {
    pub fn new(left: Expression, operator: Token, right: Expression) -> (expression: Self)
        ensures
            *expression.left == left,
            expression.operator == operator,
            *expression.right == right,
    {
        Self { left: Box::new(left), operator, right: Box::new(right) }
    }
}

impl UnaryExpression {
    pub fn new(operator: Token, right: Expression) -> (expression: Self)
        ensures
            expression.operator == operator,
            *expression.right == right,
    {
        Self { operator, right: Box::new(right) }
    }
}

impl GroupExpression {
    pub fn new(child: Expression) -> (expression: Self)
        ensures
            *expression.child == child,
    {
        Self { child: Box::new(child) }
    }
}

impl CallExpression {
    pub fn new(identifier: Token, arguments: Vec<Expression>) -> (expression: Self)
        ensures
            expression.identifier == identifier,
            expression.arguments == arguments,
    {
        Self { identifier, arguments }
    }
}

impl IdentifierExpression {
    pub fn new(identifier: Token) -> (expression: Self)
        ensures
            expression.identifier == identifier,
    {
        Self { identifier }
    }
}

impl LiteralExpression {
    pub fn new(object: Token) -> (expression: Self)
        ensures
            expression.object == object,
    {
        Self { object }
    }
}

impl ArrayExpression {
    pub fn new(objects: Vec<Token>) -> (expression: Self)
        ensures
            expression.objects == objects,
    {
        Self { objects }
    }
}

/// A copy of a list of statements.
pub fn clone_statements(statements: &Vec<Statement>) -> (copy: Vec<Statement>)
    ensures
        statements_view(copy@) == statements_view(statements@),
    decreases statements,
{
    let mut copy: Vec<Statement> = Vec::new();
    let mut i: usize = 0;
    while i < statements.len()
        invariant
            i <= statements.len(),
            copy.len() == i,
            forall|j: int| 0 <= j < i ==> copy[j]@ == statements[j]@,
        decreases statements.len() - i,
    {
        copy.push(statements[i].clone());
        i += 1;
    }
    assert(statements_view(copy@) =~= statements_view(statements@));
    copy
}

/// A copy of a list of expressions.
pub fn clone_expressions(expressions: &Vec<Expression>) -> (copy: Vec<Expression>)
    ensures
        expressions_view(copy@) == expressions_view(expressions@),
    decreases expressions,
{
    let mut copy: Vec<Expression> = Vec::new();
    let mut i: usize = 0;
    while i < expressions.len()
        invariant
            i <= expressions.len(),
            copy.len() == i,
            forall|j: int| 0 <= j < i ==> copy[j]@ == expressions[j]@,
        decreases expressions.len() - i,
    {
        copy.push(expressions[i].clone());
        i += 1;
    }
    assert(expressions_view(copy@) =~= expressions_view(expressions@));
    copy
}

impl Clone for BlockExpression {
    fn clone(&self) -> (copy: Self)
        ensures
            copy@ == self@,
        decreases self,
    {
        BlockExpression::new(clone_statements(&self.statements))
    }
}

impl Clone for ElseBlock {
    fn clone(&self) -> (copy: Self)
        ensures
            copy@ == self@,
        decreases self,
    {
        match self {
            ElseBlock::Block(block) => ElseBlock::Block(block.clone()),
            ElseBlock::If(if_expression) => ElseBlock::If(if_expression.clone()),
        }
    }
}

impl Clone for IfExpression {
    fn clone(&self) -> (copy: Self)
        ensures
            copy@ == self@,
        decreases self,
    {
        let else_block = match &*self.else_block {
            Some(else_block) => Some(else_block.clone()),
            None => None,
        };
        IfExpression::new((*self.condition).clone(), self.if_block.clone(), else_block)
    }
}

impl Clone for FunctionStatement {
    fn clone(&self) -> (copy: Self)
        ensures
            copy@ == self@,
        decreases self,
    {
        FunctionStatement::new(
            self.identifier.clone(),
            clone_tokens(&self.paramiters),
            self.block.clone(),
            self.is_builtin,
        )
    }
}

impl Clone for Expression {
    fn clone(&self) -> (copy: Self)
        ensures
            copy@ == self@,
        decreases self,
    {
        match self {
            Expression::Block(block) => Expression::Block(block.clone()),
            Expression::If(if_expression) => Expression::If(if_expression.clone()),
            Expression::Binary(binary) => Expression::Binary(
                BinaryExpression::new(
                    (*binary.left).clone(),
                    binary.operator.clone(),
                    (*binary.right).clone(),
                ),
            ),
            Expression::Unary(unary) => Expression::Unary(
                UnaryExpression::new(unary.operator.clone(), (*unary.right).clone()),
            ),
            Expression::Group(group) => Expression::Group(
                GroupExpression::new((*group.child).clone()),
            ),
            Expression::Call(call) => Expression::Call(
                CallExpression::new(call.identifier.clone(), clone_expressions(&call.arguments)),
            ),
            Expression::Identifier(name) => Expression::Identifier(
                IdentifierExpression::new(name.identifier.clone()),
            ),
            Expression::Literal(literal) => Expression::Literal(
                LiteralExpression::new(literal.object.clone()),
            ),
            Expression::Array(array) => Expression::Array(
                ArrayExpression::new(clone_tokens(&array.objects)),
            ),
        }
    }
}

impl Clone for Statement {
    fn clone(&self) -> (copy: Self)
        ensures
            copy@ == self@,
        decreases self,
    {
        match self {
            Statement::Let(statement) => Statement::Let(
                LetStatement::new(statement.identifier.clone(), statement.expression.clone()),
            ),
            Statement::Assignment(statement) => Statement::Assignment(
                AssignmentStatement::new(
                    statement.identifier.clone(),
                    statement.expression.clone(),
                ),
            ),
            Statement::Function(function) => Statement::Function(function.clone()),
            Statement::BuiltinFunction(call) => Statement::BuiltinFunction(
                BuiltinFunctionStatement::new(
                    call.builtin_function,
                    clone_expressions(&call.arguments),
                ),
            ),
            Statement::Return(expression) => Statement::Return(expression.clone()),
            Statement::Expression(expression) => Statement::Expression(expression.clone()),
        }
    }
}

} // verus!
