//! The rules of evaluation, as one step of a machine.
//!
//! The machine holds the two name tables, what it is doing at the moment, and a
//! stack of what is still to be done with the value of that. One step takes an
//! event from the host and gives the next state and what the host is to do
//! before the next step. Nothing here reads, prints or calculates with doubles:
//! the machine asks for it.

use crate::common::ast::{
    BuiltinFunction, ElseView, ExpressionView, FunctionView, IfView, StatementView,
};
use crate::common::error::{ErrorType, ErrorView};
use crate::common::object::{Meta, ObjectView};
use crate::common::position::PositionView;
use crate::common::text::{decimal, plain, trimmed, FragmentView};
use crate::common::token::{TokenType, TokenView};
use crate::runtime::environment::{no_such_function, no_such_variable};
use crate::runtime::operators::{binary, unary, Operation, OutcomeView};
use vstd::prelude::*;

verus! {

/// The variables as a map from names to values.
pub type Variables = Map<Seq<char>, ObjectView>;

/// What is to be done with the next value that is delivered.
pub enum FrameView {
    /// Go on with the statement at the offset; after the last one, finish.
    Program(Seq<StatementView>, int),
    /// Go on with the statement at the offset, unless the value is marked as
    /// returning; at the end bring back the variables as they were on entry.
    Block(Seq<StatementView>, int, Variables),
    /// Declare the variable with the value.
    Let(TokenView),
    /// Assign the value to the variable.
    Assign(TokenView),
    /// Mark the value as returning.
    Return,
    /// The value is a condition: take the block if it is truthy, else the `else` part.
    Condition(Seq<StatementView>, Option<Box<ElseView>>),
    /// The value is the left operand: evaluate the right one.
    Left(TokenView, ExpressionView),
    /// The value is the right operand: apply the operator to the left one and it.
    Right(TokenView, ObjectView),
    /// Apply the prefix operator to the value.
    Unary(TokenView),
    /// The value is the next argument of a call: evaluate the one behind it, or,
    /// with all of them, bind the parameters and enter the body.
    Arguments(FunctionView, Seq<ExpressionView>, Seq<ObjectView>),
    /// The value is the result of a call: bring back the caller's variables and
    /// take the return mark off.
    Call(Variables),
    /// Print the value, then go on with the argument at the offset.
    Write(Seq<ExpressionView>, int),
    /// Append the value to the array in the variable.
    Push(TokenView),
    /// The value is the next item of an array literal whose tokens from the
    /// offset on are still to be read.
    Array(Seq<TokenView>, int, Seq<ObjectView>),
}

/// What the machine is doing.
pub enum ControlView {
    /// Nothing: no program, or the program has ended.
    Idle,
    /// About to execute a statement.
    Execute(StatementView),
    /// About to evaluate an expression.
    Evaluate(ExpressionView),
    /// A value is ready for the topmost frame.
    Deliver(ObjectView),
    /// Waiting for the number that the digits of this token spell.
    Parsing(TokenView),
    /// Waiting for the result of this operation on these two numbers.
    Computing(Operation, u64, u64),
    /// Waiting for a line of input for this variable.
    Reading(TokenView),
    /// Waiting for these fragments to be printed.
    Writing(Seq<FragmentView>),
}

/// What the machine holds besides what it is doing: the two tables and the stack.
pub struct StoreView {
    pub variables: Variables,
    pub functions: Map<Seq<char>, FunctionView>,
    pub frames: Seq<FrameView>,
}

/// The state of the machine.
pub struct MachineView {
    pub store: StoreView,
    pub control: ControlView,
}

/// What the host tells the machine.
pub enum EventView {
    /// Go on; after a `Write`: it is printed.
    Resume,
    /// The number that was asked for.
    Number(u64),
    /// The digits that were to be converted spell no number.
    Invalid,
    /// The line that was read.
    Line(Seq<char>),
}

/// What the machine tells the host to do before the next step.
pub enum ActionView {
    /// Nothing: step again.
    Continue,
    /// Convert these decimal digits to a double and answer with `Number`, or
    /// with `Invalid` if they spell none.
    Parse(Seq<char>),
    /// Apply the operation to the two doubles and answer with `Number`.
    Compute(Operation, u64, u64),
    /// Read one line from the console and answer with `Line`.
    Read,
    /// Print the fragments, nothing between or after them, and answer with `Resume`.
    Write(Seq<FragmentView>),
    /// The program has ended.
    Finish,
    /// The program has failed with this error.
    Fail(ErrorView),
}

/// A state and the action that goes with having reached it.
pub struct StepView {
    pub machine: MachineView,
    pub action: ActionView,
}

/// The unmarked `nil`.
pub open spec fn nil() -> ObjectView {
    ObjectView::Nil(Meta { is_return: false })
}

/// The error of a number token whose digits the host could not convert.
pub open spec fn not_a_number(token: TokenView) -> ErrorView {
    ErrorView {
        e_type: ErrorType::LexingError,
        message: plain("could not parse "@ + token.lexeme + " to float"@),
        position: token.position,
    }
}

/// The error of a built-in statement whose arguments are not of its shape.
pub open spec fn malformed_builtin() -> ErrorView {
    ErrorView {
        e_type: ErrorType::RuntimeError,
        message: plain("Malformed built-in statement"@),
        position: PositionView { source_path: Seq::empty(), row: 0 },
    }
}

/// The error of a call with more or fewer arguments than parameters.
pub open spec fn wrong_argument_count(callee: TokenView, paramiters: nat, arguments: nat) -> ErrorView {
    ErrorView {
        e_type: ErrorType::RuntimeError,
        message: plain(
            "Expected "@ + decimal(paramiters) + " arguments, got "@ + decimal(arguments),
        ),
        position: callee.position,
    }
}

impl MachineView {
    /// A machine without variables, functions or program.
    pub open spec fn fresh() -> MachineView {
        MachineView {
            store: StoreView { variables: Map::empty(), functions: Map::empty(), frames: Seq::empty() },
            control: ControlView::Idle,
        }
    }

    /// The machine at the start of `program`, its tables kept.
    pub open spec fn load(self, program: Seq<StatementView>) -> MachineView {
        MachineView {
            store: StoreView { frames: seq![FrameView::Program(program, 0)], ..self.store },
            control: ControlView::Deliver(nil()),
        }
    }

    /// The machine as it is, with an action.
    pub open spec fn stay(self, action: ActionView) -> StepView {
        StepView { machine: self, action }
    }

    /// One step. A machine that waits for an answer takes the answer it waits
    /// for; on any other event it stays as it is and asks again. A machine that
    /// does not wait goes on, whatever the event. Digits that spell no number
    /// end the program with an error.
    pub open spec fn step(self, event: EventView) -> StepView {
        match self.control {
            ControlView::Idle => self.stay(ActionView::Finish),
            ControlView::Execute(statement) => self.store.execute(statement),
            ControlView::Evaluate(expression) => self.store.evaluate(expression),
            ControlView::Deliver(value) => self.store.deliver(value),
            ControlView::Parsing(token) => match event {
                EventView::Number(bits) => self.store.go(
                    ControlView::Deliver(ObjectView::Number(bits, Meta { is_return: false })),
                ),
                EventView::Invalid => self.store.fail(not_a_number(token)),
                _ => self.stay(ActionView::Parse(token.lexeme)),
            },
            ControlView::Computing(operation, left, right) => match event {
                EventView::Number(bits) => self.store.go(
                    ControlView::Deliver(ObjectView::Number(bits, Meta { is_return: false })),
                ),
                _ => self.stay(ActionView::Compute(operation, left, right)),
            },
            ControlView::Reading(name) => match event {
                EventView::Line(line) => self.store.read(name, line),
                _ => self.stay(ActionView::Read),
            },
            ControlView::Writing(fragments) => match event {
                EventView::Resume => self.store.written(),
                _ => self.stay(ActionView::Write(fragments)),
            },
        }
    }
}

impl StoreView {
    /// Go on with `control`.
    pub open spec fn go(self, control: ControlView) -> StepView {
        StepView { machine: MachineView { store: self, control }, action: ActionView::Continue }
    }

    /// Wait in `control` for the host to do `action`.
    pub open spec fn ask(self, control: ControlView, action: ActionView) -> StepView {
        StepView { machine: MachineView { store: self, control }, action }
    }

    /// Give up: what was still to be done is dropped, and every block and call
    /// that is still open is left at once. The variables are again those that
    /// the outermost open block or call found on entry, so that nothing that
    /// was declared or assigned inside one reaches the outside; with no block
    /// or call open they stay as they are. The functions stay as they are.
    pub open spec fn fail(self, error: ErrorView) -> StepView {
        StepView {
            machine: MachineView {
                store: StoreView {
                    variables: unwound(self.frames, 0, self.variables),
                    functions: self.functions,
                    frames: Seq::empty(),
                },
                control: ControlView::Idle,
            },
            action: ActionView::Fail(error),
        }
    }

    /// With one more frame on the stack.
    pub open spec fn push(self, frame: FrameView) -> StoreView {
        StoreView { frames: self.frames.push(frame), ..self }
    }

    /// Without the topmost frame.
    pub open spec fn pop(self) -> StoreView {
        StoreView { frames: self.frames.drop_last(), ..self }
    }

    /// With these variables.
    pub open spec fn with_variables(self, variables: Variables) -> StoreView {
        StoreView { variables, ..self }
    }

    /// What an operator came to: deliver the value, ask for the computation, or fail.
    #[verifier::opaque]
    pub open spec fn settle(self, outcome: OutcomeView) -> StepView {
        match outcome {
            OutcomeView::Value(value) => self.go(ControlView::Deliver(value)),
            OutcomeView::Compute(operation, left, right) => self.ask(
                ControlView::Computing(operation, left, right),
                ActionView::Compute(operation, left, right),
            ),
            OutcomeView::Failure(error) => self.fail(error),
        }
    }

    /// The array in the variable `name` replaced by `changed`, and `nil` delivered;
    /// an error if there is no such variable.
    #[verifier::opaque]
    pub open spec fn rebind(self, name: TokenView, changed: ObjectView) -> StepView {
        if self.variables.contains_key(name.lexeme) {
            self.with_variables(self.variables.insert(name.lexeme, changed)).go(
                ControlView::Deliver(nil()),
            )
        } else {
            self.fail(no_such_variable(name))
        }
    }

    /// Executing a statement.
    #[verifier::opaque]
    pub open spec fn execute(self, statement: StatementView) -> StepView {
        match statement {
            StatementView::Let(name, value) => self.push(FrameView::Let(name)).go(
                ControlView::Evaluate(value),
            ),
            StatementView::Assignment(name, value) => if self.variables.contains_key(name.lexeme) {
                self.push(FrameView::Assign(name)).go(ControlView::Evaluate(value))
            } else {
                self.fail(no_such_variable(name))
            },
            StatementView::Function(function) => StoreView {
                functions: self.functions.insert(function.identifier.lexeme, function),
                ..self
            }.go(ControlView::Deliver(nil())),
            StatementView::BuiltinFunction(builtin, arguments) => self.execute_builtin(
                builtin,
                arguments,
            ),
            StatementView::Return(value) => self.push(FrameView::Return).go(
                ControlView::Evaluate(value),
            ),
            StatementView::Expression(value) => self.go(ControlView::Evaluate(value)),
        }
    }

    /// Executing a built-in statement.
    ///
    /// `read` asks for a line for the variable it names. `write` evaluates and
    /// prints its arguments one after the other. `push` evaluates its first
    /// argument, then appends it to the array in the variable that its second
    /// names. `pop` takes the last item off the array in the variable it names.
    #[verifier::opaque]
    pub open spec fn execute_builtin(
        self,
        builtin: BuiltinFunction,
        arguments: Seq<ExpressionView>,
    ) -> StepView {
        match builtin {
            BuiltinFunction::Read => if arguments.len() == 1 && arguments[0] is Identifier {
                self.ask(ControlView::Reading(arguments[0]->Identifier_0), ActionView::Read)
            } else {
                self.fail(malformed_builtin())
            },
            BuiltinFunction::Write => if arguments.len() == 0 {
                self.go(ControlView::Deliver(nil()))
            } else {
                self.push(FrameView::Write(arguments, 1)).go(ControlView::Evaluate(arguments[0]))
            },
            BuiltinFunction::Push => if arguments.len() == 2 && arguments[1] is Identifier {
                self.push(FrameView::Push(arguments[1]->Identifier_0)).go(
                    ControlView::Evaluate(arguments[0]),
                )
            } else {
                self.fail(malformed_builtin())
            },
            BuiltinFunction::Pop => if arguments.len() == 1 && arguments[0] is Identifier {
                self.shorten(arguments[0]->Identifier_0)
            } else {
                self.fail(malformed_builtin())
            },
        }
    }

    /// Entering a block: with no statement its value is `nil`; else the variables
    /// are remembered and the first statement is executed.
    #[verifier::opaque]
    pub open spec fn enter_block(self, statements: Seq<StatementView>) -> StepView {
        if statements.len() == 0 {
            self.go(ControlView::Deliver(nil()))
        } else {
            self.push(FrameView::Block(statements, 1, self.variables)).go(
                ControlView::Execute(statements[0]),
            )
        }
    }

    /// Entering an `if`: its condition is evaluated first.
    #[verifier::opaque]
    pub open spec fn enter_if(self, branch: IfView) -> StepView {
        self.push(FrameView::Condition(branch.if_block, branch.else_block)).go(
            ControlView::Evaluate(*branch.condition),
        )
    }

    /// Evaluating an expression.
    #[verifier::opaque]
    pub open spec fn evaluate(self, expression: ExpressionView) -> StepView {
        match expression {
            ExpressionView::Block(statements) => self.enter_block(statements),
            ExpressionView::If(branch) => self.enter_if(branch),
            ExpressionView::Binary(left, operator, right) => self.push(
                FrameView::Left(operator, *right),
            ).go(ControlView::Evaluate(*left)),
            ExpressionView::Unary(operator, right) => self.push(FrameView::Unary(operator)).go(
                ControlView::Evaluate(*right),
            ),
            ExpressionView::Group(child) => self.go(ControlView::Evaluate(*child)),
            ExpressionView::Call(callee, arguments) => self.call(callee, arguments),
            ExpressionView::Identifier(name) => if self.variables.contains_key(name.lexeme) {
                self.go(ControlView::Deliver(self.variables[name.lexeme]))
            } else {
                self.fail(no_such_variable(name))
            },
            ExpressionView::Literal(token) => self.literal(token),
            ExpressionView::Array(tokens) => self.gather(tokens, 0, Seq::empty()),
        }
    }

    /// The value of a literal token: the value it carries; without one, a number
    /// token asks for the number that its digits spell, and any other token is `nil`.
    #[verifier::opaque]
    pub open spec fn literal(self, token: TokenView) -> StepView {
        match token.literal {
            Some(value) => self.go(ControlView::Deliver(value)),
            None => if token.ttype == TokenType::Number {
                self.ask(ControlView::Parsing(token), ActionView::Parse(token.lexeme))
            } else {
                self.go(ControlView::Deliver(nil()))
            },
        }
    }

    /// A call: the function must exist and have as many parameters as there are
    /// arguments. The arguments are evaluated first, all of them in the caller's
    /// variables; without arguments the body is entered at once.
    #[verifier::opaque]
    pub open spec fn call(self, callee: TokenView, arguments: Seq<ExpressionView>) -> StepView {
        if !self.functions.contains_key(callee.lexeme) {
            self.fail(no_such_function(callee))
        } else {
            let function = self.functions[callee.lexeme];
            if function.paramiters.len() != arguments.len() {
                self.fail(
                    wrong_argument_count(callee, function.paramiters.len(), arguments.len()),
                )
            } else if arguments.len() == 0 {
                self.enter_function(function, Seq::empty())
            } else {
                self.push(FrameView::Arguments(function, arguments, Seq::empty())).go(
                    ControlView::Evaluate(arguments[0]),
                )
            }
        }
    }

    /// Entering a function: the caller's variables are remembered, each parameter
    /// that has an argument is declared with it, and the body is evaluated as a block.
    #[verifier::opaque]
    pub open spec fn enter_function(self, function: FunctionView, values: Seq<ObjectView>) -> StepView {
        self.push(FrameView::Call(self.variables)).with_variables(
            bound(
                self.variables,
                function.paramiters,
                values,
                if function.paramiters.len() < values.len() {
                    function.paramiters.len() as int
                } else {
                    values.len() as int
                },
            ),
        ).go(ControlView::Evaluate(ExpressionView::Block(function.block)))
    }

    /// Reading an array literal on from the token at `from`, after the items
    /// `found`: the items up to the next number that is still to be asked for
    /// are taken in; at such a number the machine asks for it, and after the
    /// last token the array is delivered.
    #[verifier::opaque]
    pub open spec fn gather(self, tokens: Seq<TokenView>, from: int, found: Seq<ObjectView>) -> StepView {
        let (stop, items) = gathered(tokens, from, found);
        if 0 <= stop < tokens.len() {
            self.push(FrameView::Array(tokens, stop + 1, items)).ask(
                ControlView::Parsing(tokens[stop]),
                ActionView::Parse(tokens[stop].lexeme),
            )
        } else {
            self.go(ControlView::Deliver(ObjectView::Array(items, Meta { is_return: false })))
        }
    }

    /// Delivering a value to the topmost frame, which leaves the stack. Without
    /// a frame the machine comes to rest.
    #[verifier::opaque]
    pub open spec fn deliver(self, value: ObjectView) -> StepView {
        if self.frames.len() == 0 {
            self.ask(ControlView::Idle, ActionView::Finish)
        } else {
            self.pop().receive(self.frames.last(), value)
        }
    }

    /// What `frame` does with `value`, the frame being off the stack.
    #[verifier::opaque]
    pub open spec fn receive(self, frame: FrameView, value: ObjectView) -> StepView {
        match frame {
            FrameView::Program(statements, next) => self.next_of_program(statements, next),
            FrameView::Block(statements, next, saved) => self.next_of_block(
                statements,
                next,
                saved,
                value,
            ),
            FrameView::Let(name) => self.with_variables(
                self.variables.insert(name.lexeme, value),
            ).go(ControlView::Deliver(value)),
            FrameView::Assign(name) => if self.variables.contains_key(name.lexeme) {
                self.with_variables(self.variables.insert(name.lexeme, value)).go(
                    ControlView::Deliver(value),
                )
            } else {
                self.fail(no_such_variable(name))
            },
            FrameView::Return => self.go(
                ControlView::Deliver(value.with_meta(Meta { is_return: true })),
            ),
            FrameView::Condition(if_block, else_block) => self.branch(if_block, else_block, value),
            FrameView::Left(operator, right) => self.push(FrameView::Right(operator, value)).go(
                ControlView::Evaluate(right),
            ),
            FrameView::Right(operator, left) => self.settle(binary(operator, left, value)),
            FrameView::Unary(operator) => self.settle(unary(operator, value)),
            FrameView::Arguments(function, arguments, values) => self.next_argument(
                function,
                arguments,
                values.push(value),
            ),
            FrameView::Call(saved) => self.with_variables(saved).go(
                ControlView::Deliver(value.with_meta(Meta { is_return: false })),
            ),
            FrameView::Write(arguments, next) => self.push(FrameView::Write(arguments, next)).ask(
                ControlView::Writing(value.display()),
                ActionView::Write(value.display()),
            ),
            FrameView::Push(name) => self.append(name, value),
            FrameView::Array(tokens, next, found) => self.gather(tokens, next, found.push(value)),
        }
    }

    /// The statement of a program at `next` is executed; after the last one the
    /// program has ended.
    #[verifier::opaque]
    pub open spec fn next_of_program(self, statements: Seq<StatementView>, next: int) -> StepView {
        if 0 <= next < statements.len() {
            self.push(FrameView::Program(statements, next + 1)).go(
                ControlView::Execute(statements[next]),
            )
        } else {
            self.ask(ControlView::Idle, ActionView::Finish)
        }
    }

    /// A statement of a block gave `value`. If the value is marked as returning,
    /// or the statement was the last, the block ends: the variables are again
    /// those of its entry, and the value is the block's. Else the statement at
    /// `next` is executed.
    #[verifier::opaque]
    pub open spec fn next_of_block(
        self,
        statements: Seq<StatementView>,
        next: int,
        saved: Variables,
        value: ObjectView,
    ) -> StepView {
        if value.meta().is_return || !(0 <= next < statements.len()) {
            self.with_variables(saved).go(ControlView::Deliver(value))
        } else {
            self.push(FrameView::Block(statements, next + 1, saved)).go(
                ControlView::Execute(statements[next]),
            )
        }
    }

    /// The condition of an `if` gave `value`: truthy takes the block; else the
    /// `else` part is taken, and without one the `if` is `nil`.
    #[verifier::opaque]
    pub open spec fn branch(
        self,
        if_block: Seq<StatementView>,
        else_block: Option<Box<ElseView>>,
        value: ObjectView,
    ) -> StepView {
        if value.truthy() {
            self.go(ControlView::Evaluate(ExpressionView::Block(if_block)))
        } else {
            match else_block {
                None => self.go(ControlView::Deliver(nil())),
                Some(part) => match *part {
                    ElseView::Block(block) => self.go(
                        ControlView::Evaluate(ExpressionView::Block(block)),
                    ),
                    ElseView::If(branch) => self.go(
                        ControlView::Evaluate(ExpressionView::If(branch)),
                    ),
                },
            }
        }
    }

    /// With the values `ready` of the first arguments of a call: the next
    /// argument is evaluated, or, with all of them, the function is entered.
    #[verifier::opaque]
    pub open spec fn next_argument(
        self,
        function: FunctionView,
        arguments: Seq<ExpressionView>,
        ready: Seq<ObjectView>,
    ) -> StepView {
        if ready.len() < arguments.len() {
            self.push(FrameView::Arguments(function, arguments, ready)).go(
                ControlView::Evaluate(arguments[ready.len() as int]),
            )
        } else {
            self.enter_function(function, ready)
        }
    }

    /// `value` is appended to the array in the variable `name`.
    #[verifier::opaque]
    pub open spec fn append(self, name: TokenView, value: ObjectView) -> StepView {
        if !self.variables.contains_key(name.lexeme) {
            self.fail(no_such_variable(name))
        } else if self.variables[name.lexeme] is Array {
            self.rebind(
                name,
                self.variables[name.lexeme].pushed(value).with_meta(Meta { is_return: false }),
            )
        } else {
            self.fail(
                crate::common::object::no_push_method(self.variables[name.lexeme], name.position),
            )
        }
    }

    /// The last item is taken off the array in the variable `name`.
    #[verifier::opaque]
    pub open spec fn shorten(self, name: TokenView) -> StepView {
        if !self.variables.contains_key(name.lexeme) {
            self.fail(no_such_variable(name))
        } else if self.variables[name.lexeme] is Array {
            self.rebind(
                name,
                self.variables[name.lexeme].popped().with_meta(Meta { is_return: false }),
            )
        } else {
            self.fail(
                crate::common::object::no_push_method(self.variables[name.lexeme], name.position),
            )
        }
    }

    /// After a value was printed: the next argument of the `write`, or, after
    /// the last one, `nil` as the value of the statement.
    #[verifier::opaque]
    pub open spec fn written(self) -> StepView {
        if self.frames.len() > 0 && self.frames.last() is Write {
            let arguments = self.frames.last()->Write_0;
            let next = self.frames.last()->Write_1;
            if 0 <= next < arguments.len() {
                self.pop().push(FrameView::Write(arguments, next + 1)).go(
                    ControlView::Evaluate(arguments[next]),
                )
            } else {
                self.pop().go(ControlView::Deliver(nil()))
            }
        } else {
            self.go(ControlView::Deliver(nil()))
        }
    }

    /// A line was read for the variable `name`: the variable gets the line
    /// without the white space at its ends, as a string.
    #[verifier::opaque]
    pub open spec fn read(self, name: TokenView, line: Seq<char>) -> StepView {
        self.rebind(name, ObjectView::String(trimmed(line), Meta { is_return: false }))
    }
}

/// The variables that a frame brings back when it leaves the stack: those that
/// a block or a call found on entry.
pub open spec fn saved_by(frame: FrameView) -> Option<Variables> {
    match frame {
        FrameView::Block(_, _, saved) => Some(saved),
        FrameView::Call(saved) => Some(saved),
        _ => None,
    }
}

/// The variables after every block and call among the frames from `from` on
/// was left: those that the lowest of them found on entry, or `variables` if
/// there is none.
pub open spec fn unwound(frames: Seq<FrameView>, from: int, variables: Variables) -> Variables
    decreases frames.len() - from,
{
    if from < 0 || from >= frames.len() {
        variables
    } else {
        match saved_by(frames[from]) {
            Some(saved) => saved,
            None => unwound(frames, from + 1, variables),
        }
    }
}

/// The items of an array literal from the token at `from` on, after `found`,
/// up to the first number token that carries no value, and the offset of that
/// token, or the length. A token that carries a value gives an item; any other
/// token is passed over.
pub open spec fn gathered(tokens: Seq<TokenView>, from: int, found: Seq<ObjectView>) -> (
    int,
    Seq<ObjectView>,
)
    decreases tokens.len() - from,
{
    if from < 0 || from >= tokens.len() {
        (from, found)
    } else {
        match tokens[from].literal {
            Some(value) => gathered(tokens, from + 1, found.push(value)),
            None => if tokens[from].ttype == TokenType::Number {
                (from, found)
            } else {
                gathered(tokens, from + 1, found)
            },
        }
    }
}

/// The variables after the first `count` parameters were declared, in order,
/// each with the argument at its place.
pub open spec fn bound(
    variables: Variables,
    paramiters: Seq<TokenView>,
    values: Seq<ObjectView>,
    count: int,
) -> Variables
    decreases count,
{
    if count <= 0 {
        variables
    } else {
        bound(variables, paramiters, values, count - 1).insert(
            paramiters[count - 1].lexeme,
            values[count - 1],
        )
    }
}

/// The states and actions of a run: from `machine`, one step for each event
/// in turn.
pub open spec fn run(machine: MachineView, events: Seq<EventView>) -> Seq<StepView>
    decreases events.len(),
{
    if events.len() == 0 {
        Seq::empty()
    } else {
        let first = machine.step(events[0]);
        seq![first] + run(first.machine, events.drop_first())
    }
}

/// Two machines that start fresh, are given the same program and meet the same
/// events go through the same states and ask the host for the same things: what
/// is printed and every value on the way are the same.
pub proof fn lemma_deterministic(
    first: MachineView,
    second: MachineView,
    program: Seq<StatementView>,
    events: Seq<EventView>,
)
    requires
        first == MachineView::fresh(),
        second == MachineView::fresh(),
    ensures
        run(first.load(program), events) == run(second.load(program), events),
{
}

/// Executing a statement is determined by the tables, the stack, the statement
/// and what the host answers: two machines that hold the same and meet the same
/// events take up the same statement in the same way and then go through the
/// same states, ask for the same things, and deliver the same value or fail
/// with the same error.
pub proof fn lemma_statement_deterministic(
    first: StoreView,
    second: StoreView,
    statement: StatementView,
    events: Seq<EventView>,
)
    requires
        first == second,
    ensures
        first.execute(statement) == second.execute(statement),
        run(first.execute(statement).machine, events) == run(
            second.execute(statement).machine,
            events,
        ),
{
}

} // verus!
