//! The evaluator. It walks the syntax tree one step at a time and keeps on a
//! stack what is still to be done, so that a program may recurse as deep as
//! memory allows and the host stays in charge of the console and of arithmetic.

use crate::common::ast::{
    else_view, expressions_view, statements_view, BlockExpression, BuiltinFunction,
    BuiltinFunctionStatement, CallExpression, ElseBlock, Expression, FunctionStatement,
    ExpressionView, IfExpression, Program, Statement, StatementView,
};
use crate::common::error::{Error, ErrorType};
use crate::common::object::{objects_view, Meta, Object, ObjectView};
use crate::common::position::Position;
use crate::common::text::{
    clone_fragments, decimal_text, fragments_view, trim, Fragment,
};
use crate::common::token::{tokens_view, Token, TokenType};
use crate::runtime::environment::{FunctionBindings, VariableBindings};
use crate::runtime::machine::{
    bound, ActionView, ControlView, StoreView, EventView, FrameView, MachineView, StepView,
};
use crate::runtime::operators::{
    evaluate_binary_expression, evaluate_unary_expression, Operation, Outcome,
};
use vstd::prelude::*;

verus! {

/// What the host tells the evaluator.
#[derive(Debug)]
pub enum Event {
    /// Go on; after a `Write`: it is printed.
    Resume,
    /// The number that was asked for.
    Number(u64),
    /// The digits that were to be converted spell no number.
    Invalid,
    /// The line that was read.
    Line(String),
}

impl View for Event {
    type V = EventView;

    open spec fn view(&self) -> EventView {
        match self {
            Event::Resume => EventView::Resume,
            Event::Number(bits) => EventView::Number(*bits),
            Event::Invalid => EventView::Invalid,
            Event::Line(line) => EventView::Line(line@),
        }
    }
}

/// What the evaluator tells the host to do before the next step.
#[derive(Debug)]
pub enum Action {
    /// Nothing: step again.
    Continue,
    /// Convert these decimal digits to a double and answer with `Number`, or
    /// with `Invalid` if they spell none.
    Parse(String),
    /// Apply the operation to the two doubles and answer with `Number`.
    Compute(Operation, u64, u64),
    /// Read one line from the console and answer with `Line`.
    Read,
    /// Print the fragments, nothing between or after them, and answer with `Resume`.
    Write(Vec<Fragment>),
    /// The program has ended.
    Finish,
    /// The program has failed with this error.
    Fail(Error),
}

impl View for Action {
    type V = ActionView;

    open spec fn view(&self) -> ActionView {
        match self {
            Action::Continue => ActionView::Continue,
            Action::Parse(digits) => ActionView::Parse(digits@),
            Action::Compute(operation, left, right) => ActionView::Compute(
                *operation,
                *left,
                *right,
            ),
            Action::Read => ActionView::Read,
            Action::Write(fragments) => ActionView::Write(fragments_view(fragments@)),
            Action::Finish => ActionView::Finish,
            Action::Fail(error) => ActionView::Fail(error@),
        }
    }
}

/// What is to be done with the next value that is delivered.
enum Frame {
    Program(Vec<Statement>, usize),
    Block(Vec<Statement>, usize, VariableBindings),
    Let(Token),
    Assign(Token),
    Return,
    Condition(BlockExpression, Option<ElseBlock>),
    Left(Token, Expression),
    Right(Token, Object),
    Unary(Token),
    Arguments(FunctionStatement, Vec<Expression>, Vec<Object>),
    Call(VariableBindings),
    Write(Vec<Expression>, usize),
    Push(Token),
    Array(Vec<Token>, usize, Vec<Object>),
}

impl View for Frame {
    type V = FrameView;

    closed spec fn view(&self) -> FrameView {
        match self {
            Frame::Program(statements, next) => FrameView::Program(
                statements_view(statements@),
                *next as int,
            ),
            Frame::Block(statements, next, saved) => FrameView::Block(
                statements_view(statements@),
                *next as int,
                saved@,
            ),
            Frame::Let(name) => FrameView::Let(name@),
            Frame::Assign(name) => FrameView::Assign(name@),
            Frame::Return => FrameView::Return,
            Frame::Condition(if_block, else_block) => FrameView::Condition(
                if_block@,
                else_view(*else_block),
            ),
            Frame::Left(operator, right) => FrameView::Left(operator@, right@),
            Frame::Right(operator, left) => FrameView::Right(operator@, left@),
            Frame::Unary(operator) => FrameView::Unary(operator@),
            Frame::Arguments(function, arguments, values) => FrameView::Arguments(
                function@,
                expressions_view(arguments@),
                objects_view(values@),
            ),
            Frame::Call(saved) => FrameView::Call(saved@),
            Frame::Write(arguments, next) => FrameView::Write(
                expressions_view(arguments@),
                *next as int,
            ),
            Frame::Push(name) => FrameView::Push(name@),
            Frame::Array(tokens, next, found) => FrameView::Array(
                tokens_view(tokens@),
                *next as int,
                objects_view(found@),
            ),
        }
    }
}

/// The values of a stack of frames.
closed spec fn frames_view(frames: Seq<Frame>) -> Seq<FrameView> {
    Seq::new(frames.len(), |i: int| frames[i]@)
}

/// What the evaluator is doing.
enum Control {
    Idle,
    Execute(Statement),
    Evaluate(Expression),
    Deliver(Object),
    Parsing(Token),
    Computing(Operation, u64, u64),
    Reading(Token),
    Writing(Vec<Fragment>),
}

impl View for Control {
    type V = ControlView;

    closed spec fn view(&self) -> ControlView {
        match self {
            Control::Idle => ControlView::Idle,
            Control::Execute(statement) => ControlView::Execute(statement@),
            Control::Evaluate(expression) => ControlView::Evaluate(expression@),
            Control::Deliver(value) => ControlView::Deliver(value@),
            Control::Parsing(token) => ControlView::Parsing(token@),
            Control::Computing(operation, left, right) => ControlView::Computing(
                *operation,
                *left,
                *right,
            ),
            Control::Reading(name) => ControlView::Reading(name@),
            Control::Writing(fragments) => ControlView::Writing(fragments_view(fragments@)),
        }
    }
}

/// An evaluator with its variables and functions.
pub struct Interpreter {
    variables: VariableBindings,
    functions: FunctionBindings,
    frames: Vec<Frame>,
    control: Control,
}

impl Interpreter {
    /// The tables and the stack.
    pub closed spec fn store(&self) -> StoreView {
        StoreView {
            variables: self.variables@,
            functions: self.functions@,
            frames: frames_view(self.frames@),
        }
    }

    /// The state of the machine.
    pub closed spec fn view(&self) -> MachineView {
        MachineView { store: self.store(), control: self.control@ }
    }

    /// An evaluator without variables, functions or program.
    pub fn new() -> (interpreter: Self)
        ensures
            interpreter@ == MachineView::fresh(),
    {
        let interpreter = Self {
            variables: VariableBindings::new(),
            functions: FunctionBindings::new(),
            frames: Vec::new(),
            control: Control::Idle,
        };
        assert(frames_view(interpreter.frames@) =~= Seq::<FrameView>::empty());
        interpreter
    }

    /// Takes up `program`: its statements will be executed in order by the steps
    /// that follow. The variables and functions stay as they are.
    pub fn interpret(&mut self, program: Program)
        ensures
            final(self)@ == old(self)@.load(statements_view(program@)),
    {
        let mut frames: Vec<Frame> = Vec::new();
        frames.push(Frame::Program(program, 0));
        assert(frames_view(frames@) =~= seq![
            FrameView::Program(statements_view(program@), 0),
        ]);
        self.frames = frames;
        self.control = Control::Deliver(Object::Nil(Meta::default()));
    }

    /// The variables as they are now.
    pub fn variables(&self) -> (variables: &VariableBindings)
        ensures
            variables@ == self@.store.variables,
    {
        &self.variables
    }

    /// The functions as they are now.
    pub fn functions(&self) -> (functions: &FunctionBindings)
        ensures
            functions@ == self@.store.functions,
    {
        &self.functions
    }

    /// One step of the machine: takes the host's answer and says what the host
    /// is to do next.
    #[verifier::spinoff_prover]
    pub fn step(&mut self, event: Event) -> (action: Action)
        ensures
            old(self)@.step(event@) == (StepView { machine: final(self)@, action: action@ }),
    {
        reveal(StoreView::read);
        let ghost before = self@;
        let mut control = Control::Idle;
        core::mem::swap(&mut control, &mut self.control);
        assert(self.store() == before.store);
        assert(control@ == before.control);
        match control {
            Control::Idle => {
                assert(self@ == before);
                Action::Finish
            },
            Control::Execute(statement) => {
                assert(before.control == ControlView::Execute(statement@));
                self.execute_statement(statement)
            },
            Control::Evaluate(expression) => {
                assert(before.control == ControlView::Evaluate(expression@));
                self.evaluate_expression(expression)
            },
            Control::Deliver(value) => {
                assert(before.control == ControlView::Deliver(value@));
                self.deliver(value)
            },
            Control::Parsing(token) => {
                assert(before.control == ControlView::Parsing(token@));
                match event {
                    Event::Number(bits) => self.go(
                        Control::Deliver(Object::Number(bits, Meta::default())),
                    ),
                    Event::Invalid => {
                        let mut message = "could not parse ".to_owned();
                        message.append(token.lexeme.as_str());
                        message.append(" to float");
                        self.fail(Error::new(ErrorType::LexingError, message, token.position))
                    },
                    _ => {
                        let action = Action::Parse(token.lexeme.clone());
                        self.control = Control::Parsing(token);
                        assert(self@ == before);
                        action
                    },
                }
            },
            Control::Computing(operation, left, right) => {
                assert(before.control == ControlView::Computing(operation, left, right));
                match event {
                    Event::Number(bits) => self.go(
                        Control::Deliver(Object::Number(bits, Meta::default())),
                    ),
                    _ => {
                        self.control = Control::Computing(operation, left, right);
                        assert(self@ == before);
                        Action::Compute(operation, left, right)
                    },
                }
            },
            Control::Reading(name) => {
                assert(before.control == ControlView::Reading(name@));
                match event {
                    Event::Line(line) => {
                        let text = trim(line.as_str());
                        self.rebind(name, Object::String(text, Meta::default()))
                    },
                    _ => {
                        self.control = Control::Reading(name);
                        assert(self@ == before);
                        Action::Read
                    },
                }
            },
            Control::Writing(fragments) => {
                assert(before.control == ControlView::Writing(fragments_view(fragments@)));
                match event {
                    Event::Resume => self.written(),
                    _ => {
                        let action = Action::Write(clone_fragments(&fragments));
                        self.control = Control::Writing(fragments);
                        assert(self@ == before);
                        action
                    },
                }
            },
        }
    }

    /// Goes on with `control`.
    fn go(&mut self, control: Control) -> (action: Action)
        ensures
            old(self).store().go(control@) == (StepView { machine: final(self)@, action: action@ }),
    {
        self.control = control;
        Action::Continue
    }

    /// Waits in `control` for the host to do `action`.
    fn ask(&mut self, control: Control, action: Action) -> (asked: Action)
        ensures
            old(self).store().ask(control@, action@) == (StepView {
                machine: final(self)@,
                action: asked@,
            }),
    {
        self.control = control;
        action
    }

    /// Gives up with `error`: every open block and call is left, and the variables
    /// are again those that the outermost of them found.
    fn fail(&mut self, error: Error) -> (action: Action)
        ensures
            old(self).store().fail(error@) == (StepView { machine: final(self)@, action: action@ }),
    {
        match Self::outermost_saved(&self.frames) {
            Some(saved) => {
                self.variables = saved;
            },
            None => {},
        }
        self.frames = Vec::new();
        self.control = Control::Idle;
        assert(frames_view(self.frames@) =~= Seq::<FrameView>::empty());
        Action::Fail(error)
    }

    /// The variables that the lowest block or call on the stack found on entry.
    fn outermost_saved(frames: &Vec<Frame>) -> (found: Option<VariableBindings>)
        ensures
            forall|variables: crate::runtime::machine::Variables|
                #[trigger] crate::runtime::machine::unwound(frames_view(frames@), 0, variables)
                    == match found {
                    Some(saved) => saved@,
                    None => variables,
                },
    {
        let mut i: usize = 0;
        while i < frames.len()
            invariant
                i <= frames.len(),
                forall|variables: crate::runtime::machine::Variables|
                    #[trigger] crate::runtime::machine::unwound(frames_view(frames@), 0, variables)
                        == crate::runtime::machine::unwound(
                        frames_view(frames@),
                        i as int,
                        variables,
                    ),
            decreases frames.len() - i,
        {
            assert(frames_view(frames@)[i as int] == frames[i as int]@);
            match &frames[i] {
                Frame::Block(_, _, saved) => {
                    return Some(saved.clone());
                },
                Frame::Call(saved) => {
                    return Some(saved.clone());
                },
                _ => {},
            }
            i += 1;
        }
        None
    }

    /// Puts a frame on the stack.
    fn push_frame(&mut self, frame: Frame)
        ensures
            final(self).store() == old(self).store().push(frame@),
            final(self).control == old(self).control,
    {
        self.frames.push(frame);
        assert(frames_view(self.frames@) =~= frames_view(old(self).frames@).push(frame@));
    }

    /// Takes the topmost frame off the stack.
    fn pop_frame(&mut self) -> (frame: Option<Frame>)
        ensures
            final(self).control == old(self).control,
            match frame {
                Some(top) => old(self).store().frames.len() > 0 && top@ == old(
                    self,
                ).store().frames.last() && final(self).store() == old(self).store().pop(),
                None => old(self).store().frames.len() == 0 && final(self).store() == old(
                    self,
                ).store(),
            },
    {
        let frame = self.frames.pop();
        assert(frame is Some ==> frames_view(self.frames@) =~= frames_view(
            old(self).frames@,
        ).drop_last());
        frame
    }

    /// Replaces the variables.
    fn restore(&mut self, saved: VariableBindings)
        ensures
            final(self).store() == old(self).store().with_variables(saved@),
            final(self).control == old(self).control,
    {
        self.variables = saved;
    }

    /// What an operator came to.
    fn settle(&mut self, outcome: Outcome) -> (action: Action)
        ensures
            old(self).store().settle(outcome@) == (StepView {
                machine: final(self)@,
                action: action@,
            }),
    {
        reveal(StoreView::settle);
        match outcome {
            Outcome::Value(value) => self.go(Control::Deliver(value)),
            Outcome::Compute(operation, left, right) => self.ask(
                Control::Computing(operation, left, right),
                Action::Compute(operation, left, right),
            ),
            Outcome::Failure(error) => self.fail(error),
        }
    }

    /// Gives the variable `name` the value `changed` and delivers `nil`.
    fn rebind(&mut self, name: Token, changed: Object) -> (action: Action)
        ensures
            old(self).store().rebind(name@, changed@) == (StepView {
                machine: final(self)@,
                action: action@,
            }),
    {
        reveal(StoreView::rebind);
        match self.variables.assign(name, changed) {
            Ok(()) => self.go(Control::Deliver(Object::Nil(Meta::default()))),
            Err(error) => self.fail(error),
        }
    }

    /// The error of a built-in statement whose arguments are not of its shape.
    fn malformed(&mut self) -> (action: Action)
        ensures
            old(self).store().fail(crate::runtime::machine::malformed_builtin()) == (StepView {
                machine: final(self)@,
                action: action@,
            }),
    {
        let position = Position::new(String::new(), 0);
        self.fail(
            Error::new(
                ErrorType::RuntimeError,
                "Malformed built-in statement".to_owned(),
                position,
            ),
        )
    }

    /// Takes up a statement at once, in place of what the machine was about to
    /// do: the first step of its execution. The stack and the tables are those
    /// of the machine.
    pub fn execute_statement(&mut self, statement: Statement) -> (action: Action)
        ensures
            old(self)@.store.execute(statement@) == (StepView {
                machine: final(self)@,
                action: action@,
            }),
    {
        reveal(StoreView::execute);
        match statement {
            Statement::Let(let_statement) => {
                self.push_frame(Frame::Let(let_statement.identifier));
                self.go(Control::Evaluate(let_statement.expression))
            },
            Statement::Assignment(assignment_statement) => {
                let identifier = assignment_statement.identifier;
                match self.variables.get(identifier.clone()) {
                    Err(error) => self.fail(error),
                    Ok(_) => {
                        self.push_frame(Frame::Assign(identifier));
                        self.go(Control::Evaluate(assignment_statement.expression))
                    },
                }
            },
            Statement::Function(function_statement) => self.define_function_statement(
                function_statement,
            ),
            Statement::BuiltinFunction(builtin_function_statement) => {
                self.execute_builtin_function_statement(builtin_function_statement)
            },
            Statement::Return(expression) => {
                self.push_frame(Frame::Return);
                self.go(Control::Evaluate(expression))
            },
            Statement::Expression(expression) => self.go(Control::Evaluate(expression)),
        }
    }

    /// Stores a function definition; its body is not executed.
    fn define_function_statement(&mut self, function_statement: FunctionStatement) -> (action:
        Action)
        ensures
            old(self).store().execute(StatementView::Function(function_statement@)) == (StepView {
                machine: final(self)@,
                action: action@,
            }),
    {
        reveal(StoreView::execute);
        self.functions.put(function_statement.identifier.clone(), function_statement);
        self.go(Control::Deliver(Object::Nil(Meta::default())))
    }

    /// The name that an argument of a built-in statement must be.
    fn name_of(expression: &Expression) -> (name: Option<Token>)
        ensures
            match name {
                Some(token) => expression@ == ExpressionView::Identifier(token@),
                None => !(expression@ is Identifier),
            },
    {
        match expression {
            Expression::Identifier(identifier) => Some(identifier.identifier.clone()),
            _ => None,
        }
    }

    /// Executes a built-in statement.
    fn execute_builtin_function_statement(
        &mut self,
        builtin_function_statement: BuiltinFunctionStatement,
    ) -> (action: Action)
        ensures
            old(self).store().execute_builtin(
                builtin_function_statement.builtin_function,
                expressions_view(builtin_function_statement.arguments@),
            ) == (StepView { machine: final(self)@, action: action@ }),
    {
        reveal(StoreView::execute_builtin);
        let mut arguments = builtin_function_statement.arguments;
        match builtin_function_statement.builtin_function {
            BuiltinFunction::Read => {
                if arguments.len() != 1 {
                    return self.malformed();
                }
                match Self::name_of(&arguments[0]) {
                    None => self.malformed(),
                    Some(identifier) => self.ask(Control::Reading(identifier), Action::Read),
                }
            },
            BuiltinFunction::Write => {
                if arguments.len() == 0 {
                    self.go(Control::Deliver(Object::Nil(Meta::default())))
                } else {
                    let first = arguments[0].clone();
                    self.push_frame(Frame::Write(arguments, 1));
                    self.go(Control::Evaluate(first))
                }
            },
            BuiltinFunction::Push => {
                if arguments.len() != 2 {
                    return self.malformed();
                }
                match Self::name_of(&arguments[1]) {
                    None => self.malformed(),
                    Some(identifier) => {
                        let first = arguments[0].clone();
                        self.push_frame(Frame::Push(identifier));
                        self.go(Control::Evaluate(first))
                    },
                }
            },
            BuiltinFunction::Pop => {
                if arguments.len() != 1 {
                    return self.malformed();
                }
                match Self::name_of(&arguments[0]) {
                    None => self.malformed(),
                    Some(identifier) => self.shorten(identifier),
                }
            },
        }
    }

    /// Evaluates an expression.
    fn evaluate_expression(&mut self, expression: Expression) -> (action: Action)
        ensures
            old(self).store().evaluate(expression@) == (StepView {
                machine: final(self)@,
                action: action@,
            }),
    {
        self.match_expression(expression)
    }

    /// Evaluates an expression, by its kind.
    fn match_expression(&mut self, expression: Expression) -> (action: Action)
        ensures
            old(self).store().evaluate(expression@) == (StepView {
                machine: final(self)@,
                action: action@,
            }),
    {
        reveal(StoreView::evaluate);
        match expression {
            Expression::Binary(binary_expression) => {
                self.push_frame(
                    Frame::Left(binary_expression.operator, *binary_expression.right),
                );
                self.go(Control::Evaluate(*binary_expression.left))
            },
            Expression::Unary(unary_expression) => {
                self.push_frame(Frame::Unary(unary_expression.operator));
                self.go(Control::Evaluate(*unary_expression.right))
            },
            Expression::Group(group_expression) => self.go(
                Control::Evaluate(*group_expression.child),
            ),
            Expression::Call(call_expression) => self.evaluate_call_expression(call_expression),
            Expression::Identifier(identifier_expression) => {
                match self.variables.get(identifier_expression.identifier) {
                    Ok(value) => self.go(Control::Deliver(value)),
                    Err(error) => self.fail(error),
                }
            },
            Expression::Block(block_expression) => self.evaluate_block_expression(
                block_expression,
            ),
            Expression::If(if_expression) => self.evaluate_if_expression(if_expression),
            Expression::Literal(literal_expression) => self.evaluate_literal(
                literal_expression.object,
            ),
            Expression::Array(array_expression) => {
                let found: Vec<Object> = Vec::new();
                assert(objects_view(found@) =~= Seq::<ObjectView>::empty());
                self.gather(array_expression.objects, 0, found)
            },
        }
    }

    /// The value of a literal token.
    fn evaluate_literal(&mut self, token: Token) -> (action: Action)
        ensures
            old(self).store().literal(token@) == (StepView {
                machine: final(self)@,
                action: action@,
            }),
    {
        reveal(StoreView::literal);
        match token.literal {
            Some(value) => self.go(Control::Deliver(value)),
            None => {
                if token.ttype == TokenType::Number {
                    let asked = token.lexeme.clone();
                    self.ask(
                        Control::Parsing(
                            Token::new(token.ttype, token.lexeme, None, token.position),
                        ),
                        Action::Parse(asked),
                    )
                } else {
                    self.go(Control::Deliver(Object::Nil(Meta::default())))
                }
            },
        }
    }

    /// Enters a block at once, in place of what the machine was about to do:
    /// with no statement the block is `nil`; else the variables are remembered
    /// and the first statement is taken up. The steps that follow run the block.
    pub fn evaluate_block_expression(&mut self, block_expression: BlockExpression) -> (action:
        Action)
        ensures
            old(self)@.store.enter_block(block_expression@) == (StepView {
                machine: final(self)@,
                action: action@,
            }),
    {
        reveal(StoreView::enter_block);
        let statements = *block_expression.statements;
        if statements.len() == 0 {
            self.go(Control::Deliver(Object::Nil(Meta::default())))
        } else {
            let first = statements[0].clone();
            let saved = self.variables.clone();
            self.push_frame(Frame::Block(statements, 1, saved));
            self.go(Control::Execute(first))
        }
    }

    /// Enters an `if`.
    fn evaluate_if_expression(&mut self, if_statement: IfExpression) -> (action: Action)
        ensures
            old(self).store().enter_if(if_statement@) == (StepView {
                machine: final(self)@,
                action: action@,
            }),
    {
        reveal(StoreView::enter_if);
        self.push_frame(Frame::Condition(if_statement.if_block, *if_statement.else_block));
        self.go(Control::Evaluate(*if_statement.condition))
    }

    /// The error of a call with more or fewer arguments than parameters.
    fn wrong_argument_count(callee: Token, paramiters: usize, arguments: usize) -> (error: Error)
        ensures
            error@ == crate::runtime::machine::wrong_argument_count(
                callee@,
                paramiters as nat,
                arguments as nat,
            ),
    {
        let mut message = "Expected ".to_owned();
        message.append(decimal_text(paramiters).as_str());
        message.append(" arguments, got ");
        message.append(decimal_text(arguments).as_str());
        Error::new(ErrorType::RuntimeError, message, callee.position)
    }

    /// A call.
    fn evaluate_call_expression(&mut self, call_expression: CallExpression) -> (action: Action)
        ensures
            old(self).store().call(
                call_expression.identifier@,
                expressions_view(call_expression.arguments@),
            ) == (StepView { machine: final(self)@, action: action@ }),
    {
        reveal(StoreView::call);
        let callee = call_expression.identifier;
        let arguments = call_expression.arguments;
        match self.functions.get(callee.clone()) {
            Err(error) => self.fail(error),
            Ok(function_statement) => {
                let paramiters = function_statement.paramiters.len();
                if paramiters != arguments.len() {
                    self.fail(Self::wrong_argument_count(callee, paramiters, arguments.len()))
                } else if arguments.len() == 0 {
                    let values: Vec<Object> = Vec::new();
                    assert(objects_view(values@) =~= Seq::<ObjectView>::empty());
                    self.execute_function_statement(values, function_statement)
                } else {
                    let first = arguments[0].clone();
                    let values: Vec<Object> = Vec::new();
                    assert(objects_view(values@) =~= Seq::<ObjectView>::empty());
                    self.push_frame(Frame::Arguments(function_statement, arguments, values));
                    self.go(Control::Evaluate(first))
                }
            },
        }
    }

    /// Enters a function with the values of its arguments.
    fn execute_function_statement(
        &mut self,
        arguments: Vec<Object>,
        function_statement: FunctionStatement,
    ) -> (action: Action)
        ensures
            old(self).store().enter_function(function_statement@, objects_view(arguments@))
                == (StepView { machine: final(self)@, action: action@ }),
    {
        reveal(StoreView::enter_function);
        let old_variables = self.variables.clone();
        self.push_frame(Frame::Call(old_variables));
        let count = if function_statement.paramiters.len() < arguments.len() {
            function_statement.paramiters.len()
        } else {
            arguments.len()
        };
        let mut index: usize = 0;
        while index < count
            invariant
                index <= count,
                count <= function_statement.paramiters.len(),
                count <= arguments.len(),
                self.store().frames == old(self).store().frames.push(
                    FrameView::Call(old(self).store().variables),
                ),
                self.store().functions == old(self).store().functions,
                self.store().variables == bound(
                    old(self).store().variables,
                    tokens_view(function_statement.paramiters@),
                    objects_view(arguments@),
                    index as int,
                ),
            decreases count - index,
        {
            let identifier = function_statement.paramiters[index].clone();
            let value = arguments[index].clone();
            self.variables.declare(identifier, value);
            index += 1;
        }
        self.go(Control::Evaluate(Expression::Block(function_statement.block)))
    }

    /// The items of an array literal from the token at `from` on, up to the first
    /// number that is still to be asked for.
    #[verifier::spinoff_prover]
    fn gathered(tokens: &Vec<Token>, from: usize, found: Vec<Object>) -> (result: (
        usize,
        Vec<Object>,
    ))
        ensures
            (result.0 as int, objects_view(result.1@)) == crate::runtime::machine::gathered(
                tokens_view(tokens@),
                from as int,
                objects_view(found@),
            ),
    {
        let ghost given = objects_view(found@);
        let mut items = found;
        let mut index: usize = from;
        while index < tokens.len()
            invariant
                from <= index,
                given == objects_view(found@),
                crate::runtime::machine::gathered(tokens_view(tokens@), from as int, given)
                    == crate::runtime::machine::gathered(
                    tokens_view(tokens@),
                    index as int,
                    objects_view(items@),
                ),
            decreases tokens.len() - index,
        {
            let ghost before = objects_view(items@);
            let ghost token = tokens_view(tokens@)[index as int];
            assert(token == tokens[index as int]@);
            match &tokens[index].literal {
                Some(value) => {
                    let item = value.clone();
                    assert(token.literal == Some(item@));
                    items.push(item);
                    assert(objects_view(items@) =~= before.push(item@));
                    index += 1;
                },
                None => {
                    assert(token.literal is None);
                    if tokens[index].ttype == TokenType::Number {
                        return (index, items);
                    }
                    index += 1;
                },
            }
        }
        (index, items)
    }

    /// Reads an array literal on from the token at `from`.
    fn gather(&mut self, tokens: Vec<Token>, from: usize, found: Vec<Object>) -> (action: Action)
        ensures
            old(self).store().gather(tokens_view(tokens@), from as int, objects_view(found@))
                == (StepView { machine: final(self)@, action: action@ }),
    {
        reveal(StoreView::gather);
        let (stop, items) = Self::gathered(&tokens, from, found);
        if stop < tokens.len() {
            let token = tokens[stop].clone();
            let asked = token.lexeme.clone();
            self.push_frame(Frame::Array(tokens, stop + 1, items));
            self.ask(Control::Parsing(token), Action::Parse(asked))
        } else {
            self.go(Control::Deliver(Object::Array(items, Meta::default())))
        }
    }

    /// After a value was printed.
    fn written(&mut self) -> (action: Action)
        ensures
            old(self).store().written() == (StepView { machine: final(self)@, action: action@ }),
    {
        reveal(StoreView::written);
        match self.pop_frame() {
            Some(Frame::Write(arguments, next)) => {
                if next < arguments.len() {
                    let argument = arguments[next].clone();
                    self.push_frame(Frame::Write(arguments, next + 1));
                    self.go(Control::Evaluate(argument))
                } else {
                    self.go(Control::Deliver(Object::Nil(Meta::default())))
                }
            },
            Some(other) => {
                self.push_frame(other);
                assert(self.store().frames =~= old(self).store().frames);
                self.go(Control::Deliver(Object::Nil(Meta::default())))
            },
            None => self.go(Control::Deliver(Object::Nil(Meta::default()))),
        }
    }

    /// Delivers a value to the topmost frame.
    fn deliver(&mut self, value: Object) -> (action: Action)
        ensures
            old(self).store().deliver(value@) == (StepView {
                machine: final(self)@,
                action: action@,
            }),
    {
        reveal(StoreView::deliver);
        match self.pop_frame() {
            None => self.ask(Control::Idle, Action::Finish),
            Some(frame) => self.receive(frame, value),
        }
    }

    /// What `frame` does with `value`.
    fn receive(&mut self, frame: Frame, value: Object) -> (action: Action)
        ensures
            old(self).store().receive(frame@, value@) == (StepView {
                machine: final(self)@,
                action: action@,
            }),
    {
        reveal(StoreView::receive);
        match frame {
            Frame::Program(statements, next) => self.next_of_program(statements, next),
            Frame::Block(statements, next, saved) => self.next_of_block(
                statements,
                next,
                saved,
                value,
            ),
            Frame::Let(identifier) => self.execute_let_statement(identifier, value),
            Frame::Assign(identifier) => self.execute_assignment_statement(identifier, value),
            Frame::Return => {
                let mut value = value;
                value.set_return();
                self.go(Control::Deliver(value))
            },
            Frame::Condition(if_block, else_block) => self.branch(if_block, else_block, value),
            Frame::Left(operator, right) => {
                self.push_frame(Frame::Right(operator, value));
                self.go(Control::Evaluate(right))
            },
            Frame::Right(operator, left) => {
                let outcome = evaluate_binary_expression(&operator, &left, &value);
                self.settle(outcome)
            },
            Frame::Unary(operator) => {
                let outcome = evaluate_unary_expression(&operator, &value);
                self.settle(outcome)
            },
            Frame::Arguments(function, arguments, values) => {
                let mut values = values;
                let ghost before = objects_view(values@);
                values.push(value);
                assert(objects_view(values@) =~= before.push(value@));
                self.next_argument(function, arguments, values)
            },
            Frame::Call(saved) => {
                let mut value = value;
                value.clear_return();
                self.restore(saved);
                self.go(Control::Deliver(value))
            },
            Frame::Write(arguments, next) => {
                let shown = value.display();
                let asked = clone_fragments(&shown);
                self.push_frame(Frame::Write(arguments, next));
                self.ask(Control::Writing(shown), Action::Write(asked))
            },
            Frame::Push(identifier) => self.append(identifier, value),
            Frame::Array(tokens, next, found) => {
                let mut found = found;
                let ghost before = objects_view(found@);
                found.push(value);
                assert(objects_view(found@) =~= before.push(value@));
                self.gather(tokens, next, found)
            },
        }
    }

    /// Goes on with the statement of a program at `next`.
    #[verifier::spinoff_prover]
    fn next_of_program(&mut self, statements: Vec<Statement>, next: usize) -> (action: Action)
        ensures
            old(self).store().next_of_program(statements_view(statements@), next as int)
                == (StepView { machine: final(self)@, action: action@ }),
    {
        reveal(StoreView::next_of_program);
        if next < statements.len() {
            let statement = statements[next].clone();
            assert(statement@ == statements_view(statements@)[next as int]);
            let ghost wanted = FrameView::Program(statements_view(statements@), next + 1);
            let frame = Frame::Program(statements, next + 1);
            assert(frame@ == wanted);
            self.push_frame(frame);
            assert(self.store() == old(self).store().push(wanted));
            self.go(Control::Execute(statement))
        } else {
            self.ask(Control::Idle, Action::Finish)
        }
    }

    /// Goes on with the statement of a block at `next`, or leaves the block.
    #[verifier::spinoff_prover]
    fn next_of_block(
        &mut self,
        statements: Vec<Statement>,
        next: usize,
        saved: VariableBindings,
        value: Object,
    ) -> (action: Action)
        ensures
            old(self).store().next_of_block(
                statements_view(statements@),
                next as int,
                saved@,
                value@,
            ) == (StepView { machine: final(self)@, action: action@ }),
    {
        reveal(StoreView::next_of_block);
        if value.is_return() || next >= statements.len() {
            self.restore(saved);
            self.go(Control::Deliver(value))
        } else {
            let statement = statements[next].clone();
            assert(statement@ == statements_view(statements@)[next as int]);
            let ghost wanted = FrameView::Block(statements_view(statements@), next + 1, saved@);
            let frame = Frame::Block(statements, next + 1, saved);
            assert(frame@ == wanted);
            self.push_frame(frame);
            assert(self.store() == old(self).store().push(wanted));
            self.go(Control::Execute(statement))
        }
    }

    /// Declares the variable with the value of its expression.
    fn execute_let_statement(&mut self, identifier: Token, value: Object) -> (action: Action)
        ensures
            old(self).store().receive(FrameView::Let(identifier@), value@) == (StepView {
                machine: final(self)@,
                action: action@,
            }),
    {
        reveal(StoreView::receive);
        self.variables.declare(identifier, value.clone());
        self.go(Control::Deliver(value))
    }

    /// Assigns the value of its expression to the variable.
    fn execute_assignment_statement(&mut self, identifier: Token, value: Object) -> (action:
        Action)
        ensures
            old(self).store().receive(FrameView::Assign(identifier@), value@) == (StepView {
                machine: final(self)@,
                action: action@,
            }),
    {
        reveal(StoreView::receive);
        match self.variables.assign(identifier, value.clone()) {
            Ok(()) => self.go(Control::Deliver(value)),
            Err(error) => self.fail(error),
        }
    }

    /// Takes the branch of an `if` that the value of its condition selects.
    fn branch(&mut self, if_block: BlockExpression, else_block: Option<ElseBlock>, value: Object) -> (action:
        Action)
        ensures
            old(self).store().branch(if_block@, else_view(else_block), value@) == (StepView {
                machine: final(self)@,
                action: action@,
            }),
    {
        reveal(StoreView::branch);
        if value.is_truthy() {
            self.go(Control::Evaluate(Expression::Block(if_block)))
        } else {
            match else_block {
                None => self.go(Control::Deliver(Object::Nil(Meta::default()))),
                Some(ElseBlock::Block(block)) => self.go(
                    Control::Evaluate(Expression::Block(block)),
                ),
                Some(ElseBlock::If(branch)) => self.go(Control::Evaluate(Expression::If(branch))),
            }
        }
    }

    /// Evaluates the next argument of a call, or enters the function.
    fn next_argument(
        &mut self,
        function: FunctionStatement,
        arguments: Vec<Expression>,
        values: Vec<Object>,
    ) -> (action: Action)
        ensures
            old(self).store().next_argument(
                function@,
                expressions_view(arguments@),
                objects_view(values@),
            ) == (StepView { machine: final(self)@, action: action@ }),
    {
        reveal(StoreView::next_argument);
        if values.len() < arguments.len() {
            let argument = arguments[values.len()].clone();
            self.push_frame(Frame::Arguments(function, arguments, values));
            self.go(Control::Evaluate(argument))
        } else {
            self.execute_function_statement(values, function)
        }
    }

    /// Appends `value` to the array in the variable.
    fn append(&mut self, identifier: Token, value: Object) -> (action: Action)
        ensures
            old(self).store().append(identifier@, value@) == (StepView {
                machine: final(self)@,
                action: action@,
            }),
    {
        reveal(StoreView::append);
        match self.variables.get(identifier.clone()) {
            Err(error) => self.fail(error),
            Ok(mut array) => {
                match array.push(value, identifier.position.clone()) {
                    Err(error) => self.fail(error),
                    Ok(longer) => self.rebind(identifier, longer),
                }
            },
        }
    }

    /// Takes the last item off the array in the variable.
    fn shorten(&mut self, identifier: Token) -> (action: Action)
        ensures
            old(self).store().shorten(identifier@) == (StepView {
                machine: final(self)@,
                action: action@,
            }),
    {
        reveal(StoreView::shorten);
        match self.variables.get(identifier.clone()) {
            Err(error) => self.fail(error),
            Ok(mut array) => {
                match array.pop(identifier.position.clone()) {
                    Err(error) => self.fail(error),
                    Ok(shorter) => self.rebind(identifier, shorter),
                }
            },
        }
    }
}

} // verus!
