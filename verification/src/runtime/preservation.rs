//! A machine that was given what the parser builds holds nothing else, however
//! long it runs, and executes every built-in statement by the rule of its
//! kind: the error of a malformed built-in statement is for syntax trees that
//! were put together by hand.

use crate::common::ast::{BuiltinFunction, ExpressionView, FunctionView, StatementView};
use crate::common::object::ObjectView;
use crate::common::token::TokenView;
use crate::frontend::shape::{
    all_shaped, builtin_shaped, else_shaped, expressions_shaped, if_shaped, shaped,
    statement_shaped,
};
use crate::runtime::machine::{
    ActionView, ControlView, EventView, FrameView, MachineView, StoreView,
};
use crate::runtime::operators::OutcomeView;
use vstd::prelude::*;

verus! {

/// The syntax that a frame holds is of the shape that the parser builds.
pub open spec fn frame_shaped(frame: FrameView) -> bool {
    match frame {
        FrameView::Program(statements, _) => all_shaped(statements),
        FrameView::Block(statements, _, _) => all_shaped(statements),
        FrameView::Condition(if_block, else_block) => all_shaped(if_block) && (else_block is Some
            ==> else_shaped(*else_block->Some_0)),
        FrameView::Left(_, right) => shaped(right),
        FrameView::Arguments(function, arguments, _) => all_shaped(function.block)
            && expressions_shaped(arguments),
        FrameView::Write(arguments, _) => expressions_shaped(arguments),
        _ => true,
    }
}

/// The functions and the frames hold syntax of the shape that the parser builds.
pub open spec fn store_shaped(store: StoreView) -> bool {
    &&& forall|name: Seq<char>| #[trigger]
        store.functions.contains_key(name) ==> all_shaped(store.functions[name].block)
    &&& forall|i: int| 0 <= i < store.frames.len() ==> frame_shaped(#[trigger] store.frames[i])
}

/// All the syntax that the machine holds is of the shape that the parser builds.
pub open spec fn machine_shaped(machine: MachineView) -> bool {
    &&& store_shaped(machine.store)
    &&& match machine.control {
        ControlView::Execute(statement) => statement_shaped(statement),
        ControlView::Evaluate(expression) => shaped(expression),
        _ => true,
    }
}

/// A built-in statement whose arguments are of the shape of its kind is
/// executed by the rule of its kind.
pub proof fn lemma_builtin_executes(
    store: StoreView,
    builtin: BuiltinFunction,
    values: Seq<ExpressionView>,
)
    requires
        builtin_shaped(builtin, values),
    ensures
        store.execute_builtin(builtin, values) == match builtin {
            BuiltinFunction::Read => store.ask(
                ControlView::Reading(values[0]->Identifier_0),
                ActionView::Read,
            ),
            BuiltinFunction::Write => store.push(FrameView::Write(values, 1)).go(
                ControlView::Evaluate(values[0]),
            ),
            BuiltinFunction::Push => store.push(FrameView::Push(values[1]->Identifier_0)).go(
                ControlView::Evaluate(values[0]),
            ),
            BuiltinFunction::Pop => store.shorten(values[0]->Identifier_0),
        },
{
    reveal(StoreView::execute_builtin);
}

proof fn lemma_pushed(store: StoreView, frame: FrameView)
    requires
        store_shaped(store),
        frame_shaped(frame),
    ensures
        store_shaped(store.push(frame)),
{
    assert forall|i: int| 0 <= i < store.push(frame).frames.len() implies frame_shaped(
        #[trigger] store.push(frame).frames[i],
    ) by {
        if i < store.frames.len() {
            assert(store.push(frame).frames[i] == store.frames[i]);
        }
    }
}

proof fn lemma_popped(store: StoreView)
    requires
        store_shaped(store),
        store.frames.len() > 0,
    ensures
        store_shaped(store.pop()),
        frame_shaped(store.frames.last()),
{
    assert forall|i: int| 0 <= i < store.pop().frames.len() implies frame_shaped(
        #[trigger] store.pop().frames[i],
    ) by {
        assert(store.pop().frames[i] == store.frames[i]);
    }
}

proof fn lemma_settle(store: StoreView, outcome: OutcomeView)
    requires
        store_shaped(store),
    ensures
        machine_shaped(store.settle(outcome).machine),
{
    reveal(StoreView::settle);
}

proof fn lemma_rebind(store: StoreView, name: TokenView, changed: ObjectView)
    requires
        store_shaped(store),
    ensures
        machine_shaped(store.rebind(name, changed).machine),
{
    reveal(StoreView::rebind);
}

proof fn lemma_gather(store: StoreView, tokens: Seq<TokenView>, from: int, found: Seq<ObjectView>)
    requires
        store_shaped(store),
    ensures
        machine_shaped(store.gather(tokens, from, found).machine),
{
    reveal(StoreView::gather);
    let (stop, items) = crate::runtime::machine::gathered(tokens, from, found);
    lemma_pushed(store, FrameView::Array(tokens, stop + 1, items));
}

proof fn lemma_enter_block(store: StoreView, statements: Seq<StatementView>)
    requires
        store_shaped(store),
        all_shaped(statements),
    ensures
        machine_shaped(store.enter_block(statements).machine),
{
    reveal(StoreView::enter_block);
    lemma_pushed(store, FrameView::Block(statements, 1, store.variables));
}

proof fn lemma_enter_function(store: StoreView, function: FunctionView, values: Seq<ObjectView>)
    requires
        store_shaped(store),
        all_shaped(function.block),
    ensures
        machine_shaped(store.enter_function(function, values).machine),
{
    reveal(StoreView::enter_function);
    lemma_pushed(store, FrameView::Call(store.variables));
}

proof fn lemma_execute(store: StoreView, statement: StatementView)
    requires
        store_shaped(store),
        statement_shaped(statement),
    ensures
        machine_shaped(store.execute(statement).machine),
{
    reveal(StoreView::execute);
    reveal(StoreView::shorten);
    match statement {
        StatementView::Let(name, _) => {
            lemma_pushed(store, FrameView::Let(name));
        },
        StatementView::Assignment(name, _) => {
            lemma_pushed(store, FrameView::Assign(name));
        },
        StatementView::Function(_) => {},
        StatementView::BuiltinFunction(builtin, values) => {
            lemma_builtin_executes(store, builtin, values);
            match builtin {
                BuiltinFunction::Read => {},
                BuiltinFunction::Write => {
                    lemma_pushed(store, FrameView::Write(values, 1));
                },
                BuiltinFunction::Push => {
                    lemma_pushed(store, FrameView::Push(values[1]->Identifier_0));
                },
                BuiltinFunction::Pop => {
                    let name = values[0]->Identifier_0;
                    if store.variables.contains_key(name.lexeme) {
                        lemma_rebind(
                            store,
                            name,
                            store.variables[name.lexeme].popped().with_meta(
                                crate::common::object::Meta { is_return: false },
                            ),
                        );
                    }
                },
            }
        },
        StatementView::Return(_) => {
            lemma_pushed(store, FrameView::Return);
        },
        StatementView::Expression(_) => {},
    }
}

proof fn lemma_evaluate(store: StoreView, expression: ExpressionView)
    requires
        store_shaped(store),
        shaped(expression),
    ensures
        machine_shaped(store.evaluate(expression).machine),
{
    reveal(StoreView::evaluate);
    reveal(StoreView::enter_if);
    reveal(StoreView::literal);
    reveal(StoreView::call);
    match expression {
        ExpressionView::Block(statements) => {
            lemma_enter_block(store, statements);
        },
        ExpressionView::If(branch) => {
            assert(if_shaped(branch));
            assert(shaped(*branch.condition));
            assert(all_shaped(branch.if_block));
            assert(branch.else_block is Some ==> else_shaped(*branch.else_block->Some_0));
            lemma_pushed(store, FrameView::Condition(branch.if_block, branch.else_block));
        },
        ExpressionView::Binary(_, operator, right) => {
            lemma_pushed(store, FrameView::Left(operator, *right));
        },
        ExpressionView::Unary(operator, _) => {
            lemma_pushed(store, FrameView::Unary(operator));
        },
        ExpressionView::Group(_) => {},
        ExpressionView::Call(callee, arguments) => {
            if store.functions.contains_key(callee.lexeme) {
                let function = store.functions[callee.lexeme];
                lemma_enter_function(store, function, Seq::empty());
                lemma_pushed(store, FrameView::Arguments(function, arguments, Seq::empty()));
            }
        },
        ExpressionView::Identifier(_) => {},
        ExpressionView::Literal(_) => {},
        ExpressionView::Array(tokens) => {
            lemma_gather(store, tokens, 0, Seq::empty());
        },
    }
}

proof fn lemma_receive(rest: StoreView, frame: FrameView, value: ObjectView)
    requires
        store_shaped(rest),
        frame_shaped(frame),
    ensures
        machine_shaped(rest.receive(frame, value).machine),
{
    reveal(StoreView::receive);
    reveal(StoreView::next_of_program);
    reveal(StoreView::next_of_block);
    reveal(StoreView::branch);
    reveal(StoreView::next_argument);
    reveal(StoreView::append);
    match frame {
        FrameView::Program(statements, next) => {
            lemma_pushed(rest, FrameView::Program(statements, next + 1));
        },
        FrameView::Block(statements, next, saved) => {
            lemma_pushed(rest, FrameView::Block(statements, next + 1, saved));
        },
        FrameView::Left(operator, _) => {
            lemma_pushed(rest, FrameView::Right(operator, value));
        },
        FrameView::Right(operator, left) => {
            lemma_settle(rest, crate::runtime::operators::binary(operator, left, value));
        },
        FrameView::Unary(operator) => {
            lemma_settle(rest, crate::runtime::operators::unary(operator, value));
        },
        FrameView::Arguments(function, arguments, values) => {
            lemma_pushed(rest, FrameView::Arguments(function, arguments, values.push(value)));
            lemma_enter_function(rest, function, values.push(value));
        },
        FrameView::Write(arguments, next) => {
            lemma_pushed(rest, FrameView::Write(arguments, next));
        },
        FrameView::Push(name) => {
            if rest.variables.contains_key(name.lexeme) {
                lemma_rebind(
                    rest,
                    name,
                    rest.variables[name.lexeme].pushed(value).with_meta(
                        crate::common::object::Meta { is_return: false },
                    ),
                );
            }
        },
        FrameView::Array(tokens, next, found) => {
            lemma_gather(rest, tokens, next, found.push(value));
        },
        _ => {},
    }
}

/// A machine that holds only what the parser builds still does after a step.
pub proof fn lemma_step_keeps_shape(machine: MachineView, event: EventView)
    requires
        machine_shaped(machine),
    ensures
        machine_shaped(machine.step(event).machine),
{
    let store = machine.store;
    match machine.control {
        ControlView::Idle => {},
        ControlView::Execute(statement) => {
            lemma_execute(store, statement);
        },
        ControlView::Evaluate(expression) => {
            lemma_evaluate(store, expression);
        },
        ControlView::Deliver(value) => {
            reveal(StoreView::deliver);
            if store.frames.len() > 0 {
                lemma_popped(store);
                lemma_receive(store.pop(), store.frames.last(), value);
            }
        },
        ControlView::Parsing(_) => {},
        ControlView::Computing(..) => {},
        ControlView::Reading(name) => {
            reveal(StoreView::read);
            if let EventView::Line(line) = event {
                lemma_rebind(
                    store,
                    name,
                    ObjectView::String(
                        crate::common::text::trimmed(line),
                        crate::common::object::Meta { is_return: false },
                    ),
                );
            }
        },
        ControlView::Writing(_) => {
            reveal(StoreView::written);
            if store.frames.len() > 0 {
                lemma_popped(store);
                if store.frames.last() is Write {
                    let arguments = store.frames.last()->Write_0;
                    let next = store.frames.last()->Write_1;
                    lemma_pushed(store.pop(), FrameView::Write(arguments, next + 1));
                }
            }
        },
    }
}

/// A machine that takes up a program of the shape that the parser builds holds
/// only such syntax, provided that its functions did before.
pub proof fn lemma_load_keeps_shape(machine: MachineView, program: Seq<StatementView>)
    requires
        machine_shaped(machine),
        all_shaped(program),
    ensures
        machine_shaped(machine.load(program)),
{
    let loaded = machine.load(program);
    assert forall|i: int| 0 <= i < loaded.store.frames.len() implies frame_shaped(
        #[trigger] loaded.store.frames[i],
    ) by {}
}

/// However long a machine runs on programs that the parser gave it, every
/// built-in statement that it executes has the arguments of its kind: after any
/// number of steps the machine holds only syntax of the parser's shape.
pub proof fn lemma_run_keeps_shape(machine: MachineView, events: Seq<EventView>)
    requires
        machine_shaped(machine),
    ensures
        forall|i: int|
            0 <= i < crate::runtime::machine::run(machine, events).len() ==> machine_shaped(
                (#[trigger] crate::runtime::machine::run(machine, events)[i]).machine,
            ),
    decreases events.len(),
{
    if events.len() > 0 {
        let first = machine.step(events[0]);
        lemma_step_keeps_shape(machine, events[0]);
        lemma_run_keeps_shape(first.machine, events.drop_first());
        let rest = crate::runtime::machine::run(first.machine, events.drop_first());
        assert forall|i: int|
            0 <= i < crate::runtime::machine::run(machine, events).len() implies machine_shaped(
            (#[trigger] crate::runtime::machine::run(machine, events)[i]).machine,
        ) by {
            if i > 0 {
                assert(crate::runtime::machine::run(machine, events)[i] == rest[i - 1]);
            }
        }
    }
}

} // verus!
