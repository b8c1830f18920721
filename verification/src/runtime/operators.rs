//! What the operators do to values. Arithmetic on two numbers is not done here:
//! it is handed out as a computation for the host.

use crate::common::error::{Error, ErrorType, ErrorView};
use crate::common::number;
use crate::common::object::{Meta, Object, ObjectView};
use crate::common::text::{concat, plain};
use crate::common::token::{Token, TokenType, TokenView};
use vstd::prelude::*;

verus! {

/// An arithmetic operation on two doubles.
#[derive(Clone, Copy, Debug, PartialEq, Eq, Structural)]
pub enum Operation {
    Add,
    Subtract,
    Multiply,
    Divide,
    Remainder,
}

/// What applying an operator comes to.
#[derive(Debug)]
pub enum Outcome {
    /// The result.
    Value(Object),
    /// The result is the number that this operation gives on these two numbers.
    Compute(Operation, u64, u64),
    /// The operands do not fit the operator, or the token is no operator.
    Failure(Error),
}

/// The mathematical value of an [`Outcome`].
pub enum OutcomeView {
    Value(ObjectView),
    Compute(Operation, u64, u64),
    Failure(ErrorView),
}

impl View for Outcome {
    type V = OutcomeView;

    open spec fn view(&self) -> OutcomeView {
        match self {
            Outcome::Value(object) => OutcomeView::Value(object@),
            Outcome::Compute(operation, left, right) => OutcomeView::Compute(
                *operation,
                *left,
                *right,
            ),
            Outcome::Failure(error) => OutcomeView::Failure(error@),
        }
    }
}

/// The five kinds of value.
#[derive(Clone, Copy, Debug, PartialEq, Eq, Structural)]
pub enum Kind {
    Number,
    String,
    Boolean,
    Array,
    Nil,
}

impl Kind {
    /// The kind of a value.
    pub open spec fn of(object: ObjectView) -> Kind {
        match object {
            ObjectView::Number(..) => Kind::Number,
            ObjectView::String(..) => Kind::String,
            ObjectView::Boolean(..) => Kind::Boolean,
            ObjectView::Array(..) => Kind::Array,
            ObjectView::Nil(..) => Kind::Nil,
        }
    }

    /// How a kind is named in a message.
    pub open spec fn name(self) -> Seq<char> {
        match self {
            Kind::Number => "number"@,
            Kind::String => "string"@,
            Kind::Boolean => "boolean"@,
            Kind::Array => "array"@,
            Kind::Nil => "nil"@,
        }
    }

    /// Whether an arithmetic or ordering operator takes operands of this kind:
    /// numbers always, strings where the operator also joins text.
    pub open spec fn fits(self, joins_text: bool) -> bool {
        self == Kind::Number || (joins_text && self == Kind::String)
    }

    /// The kind of a value.
    pub fn kind_of(object: &Object) -> (kind: Kind)
        ensures
            kind == Kind::of(object@),
    {
        match object {
            Object::Number(..) => Kind::Number,
            Object::String(..) => Kind::String,
            Object::Boolean(..) => Kind::Boolean,
            Object::Array(..) => Kind::Array,
            Object::Nil(..) => Kind::Nil,
        }
    }

    /// How the kind is named in a message.
    pub fn to_text(&self) -> (text: String)
        ensures
            text@ == self.name(),
    {
        match self {
            Kind::Number => "number".to_owned(),
            Kind::String => "string".to_owned(),
            Kind::Boolean => "boolean".to_owned(),
            Kind::Array => "array".to_owned(),
            Kind::Nil => "nil".to_owned(),
        }
    }
}

/// An unmarked boolean.
pub open spec fn boolean(truth: bool) -> ObjectView {
    ObjectView::Boolean(truth, Meta { is_return: false })
}

/// The error of a binary operator over operands it does not take: it names the
/// operator and the kind that does not fit.
pub open spec fn binary_mismatch(operator: TokenView, kind: Kind) -> ErrorView {
    ErrorView {
        e_type: ErrorType::RuntimeError,
        message: plain(
            "Type mismatch, `"@ + operator.lexeme + "` doesn't support `"@ + kind.name()
                + "` as it's operand"@,
        ),
        position: operator.position,
    }
}

/// The error of a prefix operator over an operand it does not take.
pub open spec fn unary_mismatch(operator: TokenView, kind: Kind) -> ErrorView {
    ErrorView {
        e_type: ErrorType::RuntimeError,
        message: plain(
            "Type mismatch, `"@ + operator.lexeme + "` does not support `"@ + kind.name()
                + "` as it's operand"@,
        ),
        position: operator.position,
    }
}

/// The error of a token that stands where a binary operator should.
pub open spec fn not_binary(operator: TokenView) -> ErrorView {
    ErrorView {
        e_type: ErrorType::RuntimeError,
        message: plain("`"@ + operator.lexeme + "` is not a binary operator."@),
        position: operator.position,
    }
}

/// The error of a token that stands where a prefix operator should.
pub open spec fn not_unary(operator: TokenView) -> ErrorView {
    ErrorView {
        e_type: ErrorType::RuntimeError,
        message: plain("`"@ + operator.lexeme + "` is not a unary operator."@),
        position: operator.position,
    }
}

/// Of two operands that an operator does not take together, the kind to blame:
/// that of the left one if the operator takes no such operand at all, else that
/// of the right one.
pub open spec fn misfit(left: ObjectView, right: ObjectView, joins_text: bool) -> Kind {
    if !Kind::of(left).fits(joins_text) {
        Kind::of(left)
    } else {
        Kind::of(right)
    }
}

/// The arithmetic operation of an operator token, if it is one.
pub open spec fn operation_of(ttype: TokenType) -> Option<Operation> {
    match ttype {
        TokenType::Plus => Some(Operation::Add),
        TokenType::Minus => Some(Operation::Subtract),
        TokenType::Star => Some(Operation::Multiply),
        TokenType::Slash => Some(Operation::Divide),
        TokenType::Modulo => Some(Operation::Remainder),
        _ => None,
    }
}

/// Whether a token is one of `>`, `>=`, `<`, `<=`.
pub open spec fn is_ordering(ttype: TokenType) -> bool {
    ttype == TokenType::Greater || ttype == TokenType::GreaterEqual || ttype == TokenType::Less
        || ttype == TokenType::LessEqual
}

/// The truth of `left op right` for an ordering operator on two numbers.
pub open spec fn ordered(ttype: TokenType, left: u64, right: u64) -> bool {
    match ttype {
        TokenType::Greater => number::less(right, left),
        TokenType::GreaterEqual => number::less_or_equal(right, left),
        TokenType::Less => number::less(left, right),
        _ => number::less_or_equal(left, right),
    }
}

/// A binary operator applied to two values.
///
/// `&&` and `||` go by the truthiness of both sides; `==` and `!=` by equality
/// of the values; neither fails. An ordering operator on two numbers gives a
/// boolean. An arithmetic operator on two numbers gives a computation. `+` and
/// the ordering operators on two strings give the strings joined. Every other
/// pair of operands is an error that names the operator and the kind that does
/// not fit.
pub open spec fn binary(operator: TokenView, left: ObjectView, right: ObjectView) -> OutcomeView {
    let ttype = operator.ttype;
    if ttype == TokenType::And {
        OutcomeView::Value(boolean(left.truthy() && right.truthy()))
    } else if ttype == TokenType::Or {
        OutcomeView::Value(boolean(left.truthy() || right.truthy()))
    } else if ttype == TokenType::EqualEqual {
        OutcomeView::Value(boolean(left.same_as(right)))
    } else if ttype == TokenType::NotEqual {
        OutcomeView::Value(boolean(!left.same_as(right)))
    } else if is_ordering(ttype) {
        match (left, right) {
            (ObjectView::Number(a, _), ObjectView::Number(b, _)) => OutcomeView::Value(
                boolean(ordered(ttype, a, b)),
            ),
            (ObjectView::String(a, _), ObjectView::String(b, _)) => OutcomeView::Value(
                ObjectView::String(a + b, Meta { is_return: false }),
            ),
            _ => OutcomeView::Failure(binary_mismatch(operator, misfit(left, right, true))),
        }
    } else {
        match operation_of(ttype) {
            Some(operation) => {
                let joins_text = operation == Operation::Add;
                match (left, right) {
                    (ObjectView::Number(a, _), ObjectView::Number(b, _)) => OutcomeView::Compute(
                        operation,
                        a,
                        b,
                    ),
                    (ObjectView::String(a, _), ObjectView::String(b, _)) => if joins_text {
                        OutcomeView::Value(ObjectView::String(a + b, Meta { is_return: false }))
                    } else {
                        OutcomeView::Failure(binary_mismatch(operator, Kind::String))
                    },
                    _ => OutcomeView::Failure(
                        binary_mismatch(operator, misfit(left, right, joins_text)),
                    ),
                }
            },
            None => OutcomeView::Failure(not_binary(operator)),
        }
    }
}

/// A prefix operator applied to a value: `!` gives the opposite of its
/// truthiness; `-` on a number gives the computation of that number times `-1`
/// and on anything else an error.
pub open spec fn unary(operator: TokenView, right: ObjectView) -> OutcomeView {
    if operator.ttype == TokenType::Not {
        OutcomeView::Value(boolean(!right.truthy()))
    } else if operator.ttype == TokenType::Minus {
        match right {
            ObjectView::Number(bits, _) => OutcomeView::Compute(
                Operation::Multiply,
                bits,
                number::MINUS_ONE,
            ),
            _ => OutcomeView::Failure(unary_mismatch(operator, Kind::of(right))),
        }
    } else {
        OutcomeView::Failure(not_unary(operator))
    }
}

/// The error of a binary operator over operands it does not take.
fn mismatch(operator: &Token, kind: Kind) -> (error: Error)
    ensures
        error@ == binary_mismatch(operator@, kind),
{
    let mut message = "Type mismatch, `".to_owned();
    message.append(operator.lexeme.as_str());
    message.append("` doesn't support `");
    message.append(kind.to_text().as_str());
    message.append("` as it's operand");
    Error::new(ErrorType::RuntimeError, message, operator.position.clone())
}

/// The kind to blame of two operands that do not go together.
fn misfit_of(left: &Object, right: &Object, joins_text: bool) -> (kind: Kind)
    ensures
        kind == misfit(left@, right@, joins_text),
{
    let left_kind = Kind::kind_of(left);
    if left_kind == Kind::Number || (joins_text && left_kind == Kind::String) {
        Kind::kind_of(right)
    } else {
        left_kind
    }
}

/// `left` and `right` joined, unmarked.
fn joined(left: &String, right: &String) -> (object: Object)
    ensures
        object@ == ObjectView::String(left@ + right@, Meta { is_return: false }),
{
    Object::String(concat(left.as_str(), right.as_str()), Meta::default())
}

/// An ordering operator applied to two values.
fn evaluate_ordering(operator: &Token, left: &Object, right: &Object) -> (outcome: Outcome)
    requires
        is_ordering(operator@.ttype),
    ensures
        outcome@ == binary(operator@, left@, right@),
{
    match (left, right) {
        (Object::Number(a, _), Object::Number(b, _)) => {
            let truth = match operator.ttype {
                TokenType::Greater => number::number_less(*b, *a),
                TokenType::GreaterEqual => number::number_less_or_equal(*b, *a),
                TokenType::Less => number::number_less(*a, *b),
                _ => number::number_less_or_equal(*a, *b),
            };
            Outcome::Value(Object::Boolean(truth, Meta::default()))
        },
        (Object::String(a, _), Object::String(b, _)) => Outcome::Value(joined(a, b)),
        _ => Outcome::Failure(mismatch(operator, misfit_of(left, right, true))),
    }
}

/// An arithmetic operator applied to two values.
fn evaluate_arithmetic(operator: &Token, operation: Operation, left: &Object, right: &Object) -> (outcome:
    Outcome)
    requires
        operation_of(operator@.ttype) == Some(operation),
    ensures
        outcome@ == binary(operator@, left@, right@),
{
    let joins_text = operation == Operation::Add;
    match (left, right) {
        (Object::Number(a, _), Object::Number(b, _)) => Outcome::Compute(operation, *a, *b),
        (Object::String(a, _), Object::String(b, _)) => {
            if joins_text {
                Outcome::Value(joined(a, b))
            } else {
                Outcome::Failure(mismatch(operator, Kind::String))
            }
        },
        _ => Outcome::Failure(mismatch(operator, misfit_of(left, right, joins_text))),
    }
}

/// A binary operator applied to two values.
pub fn evaluate_binary_expression(operator: &Token, left: &Object, right: &Object) -> (outcome:
    Outcome)
    ensures
        outcome@ == binary(operator@, left@, right@),
{
    match operator.ttype {
        TokenType::And => Outcome::Value(
            Object::Boolean(left.is_truthy() && right.is_truthy(), Meta::default()),
        ),
        TokenType::Or => Outcome::Value(
            Object::Boolean(left.is_truthy() || right.is_truthy(), Meta::default()),
        ),
        TokenType::EqualEqual => Outcome::Value(Object::Boolean(left.eq(right), Meta::default())),
        TokenType::NotEqual => Outcome::Value(Object::Boolean(!left.eq(right), Meta::default())),
        TokenType::Greater | TokenType::GreaterEqual | TokenType::Less | TokenType::LessEqual => {
            evaluate_ordering(operator, left, right)
        },
        TokenType::Plus => evaluate_arithmetic(operator, Operation::Add, left, right),
        TokenType::Minus => evaluate_arithmetic(operator, Operation::Subtract, left, right),
        TokenType::Star => evaluate_arithmetic(operator, Operation::Multiply, left, right),
        TokenType::Slash => evaluate_arithmetic(operator, Operation::Divide, left, right),
        TokenType::Modulo => evaluate_arithmetic(operator, Operation::Remainder, left, right),
        _ => {
            let mut message = "`".to_owned();
            message.append(operator.lexeme.as_str());
            message.append("` is not a binary operator.");
            Outcome::Failure(
                Error::new(ErrorType::RuntimeError, message, operator.position.clone()),
            )
        },
    }
}

/// A prefix operator applied to a value.
pub fn evaluate_unary_expression(operator: &Token, right: &Object) -> (outcome: Outcome)
    ensures
        outcome@ == unary(operator@, right@),
{
    match operator.ttype {
        TokenType::Not => Outcome::Value(Object::Boolean(!right.is_truthy(), Meta::default())),
        TokenType::Minus => match right {
            Object::Number(bits, _) => Outcome::Compute(
                Operation::Multiply,
                *bits,
                number::MINUS_ONE,
            ),
            _ => {
                let mut message = "Type mismatch, `".to_owned();
                message.append(operator.lexeme.as_str());
                message.append("` does not support `");
                message.append(Kind::kind_of(right).to_text().as_str());
                message.append("` as it's operand");
                Outcome::Failure(
                    Error::new(ErrorType::RuntimeError, message, operator.position.clone()),
                )
            },
        },
        _ => {
            let mut message = "`".to_owned();
            message.append(operator.lexeme.as_str());
            message.append("` is not a unary operator.");
            Outcome::Failure(
                Error::new(ErrorType::RuntimeError, message, operator.position.clone()),
            )
        },
    }
}

/// An arithmetic operator between a number and a boolean, on either side, is a
/// runtime error that names the operator and `boolean`.
pub proof fn lemma_number_and_boolean(operator: TokenView, number: ObjectView, truth: ObjectView)
    requires
        operation_of(operator.ttype) is Some,
        number is Number,
        truth is Boolean,
    ensures
        binary(operator, number, truth) == OutcomeView::Failure(
            binary_mismatch(operator, Kind::Boolean),
        ),
        binary(operator, truth, number) == OutcomeView::Failure(
            binary_mismatch(operator, Kind::Boolean),
        ),
        binary_mismatch(operator, Kind::Boolean).e_type == ErrorType::RuntimeError,
        binary_mismatch(operator, Kind::Boolean).message == plain(
            "Type mismatch, `"@ + operator.lexeme + "` doesn't support `"@ + "boolean"@
                + "` as it's operand"@,
        ),
{
}

} // verus!
