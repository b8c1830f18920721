//! What the rules of evaluation come to for the lifetime of variables: a block
//! and a call leave the variables as they found them.

use crate::common::ast::{ExpressionView, StatementView};
use crate::common::object::ObjectView;
use crate::common::token::TokenView;
use crate::runtime::machine::{
    saved_by, unwound, ActionView, ControlView, EventView, FrameView, MachineView, StepView, StoreView, Variables,
};
use crate::runtime::operators::OutcomeView;
use vstd::prelude::*;

verus! {

/// A step that has not failed and has left the frames up to and with the one at
/// `depth` as they were in `before`.
pub open spec fn keeps(before: Seq<FrameView>, step: StepView, depth: int) -> bool {
    step.action is Fail || (step.machine.store.frames.len() > depth
        && step.machine.store.frames.take(depth + 1) == before.take(depth + 1))
}

/// The frames below `depth + 1` do not change when a frame is put on a stack that
/// is higher than `depth`, or taken off one that is higher than `depth + 1`.
proof fn lemma_take(frames: Seq<FrameView>, frame: FrameView, depth: int)
    requires
        0 <= depth < frames.len(),
    ensures
        frames.push(frame).take(depth + 1) == frames.take(depth + 1),
        depth + 1 < frames.len() ==> frames.drop_last().take(depth + 1) == frames.take(depth + 1),
        depth + 1 < frames.len() ==> frames.drop_last().push(frame).take(depth + 1)
            == frames.take(depth + 1),
{
    assert(frames.push(frame).take(depth + 1) =~= frames.take(depth + 1));
    if depth + 1 < frames.len() {
        assert(frames.drop_last().take(depth + 1) =~= frames.take(depth + 1));
        assert(frames.drop_last().push(frame).take(depth + 1) =~= frames.take(depth + 1));
    }
}

proof fn lemma_settle(store: StoreView, outcome: OutcomeView, depth: int)
    requires
        0 <= depth < store.frames.len(),
    ensures
        keeps(store.frames, store.settle(outcome), depth),
{
    reveal(StoreView::settle);
}

proof fn lemma_rebind(store: StoreView, name: TokenView, changed: ObjectView, depth: int)
    requires
        0 <= depth < store.frames.len(),
    ensures
        keeps(store.frames, store.rebind(name, changed), depth),
{
    reveal(StoreView::rebind);
}

proof fn lemma_gather(
    store: StoreView,
    tokens: Seq<TokenView>,
    from: int,
    found: Seq<ObjectView>,
    depth: int,
)
    requires
        0 <= depth < store.frames.len(),
    ensures
        keeps(store.frames, store.gather(tokens, from, found), depth),
{
    reveal(StoreView::gather);
    let (stop, items) = crate::runtime::machine::gathered(tokens, from, found);
    lemma_take(store.frames, FrameView::Array(tokens, stop + 1, items), depth);
}

proof fn lemma_enter_block(store: StoreView, statements: Seq<StatementView>, depth: int)
    requires
        0 <= depth < store.frames.len(),
    ensures
        keeps(store.frames, store.enter_block(statements), depth),
{
    reveal(StoreView::enter_block);
    lemma_take(store.frames, FrameView::Block(statements, 1, store.variables), depth);
}

proof fn lemma_enter_function(
    store: StoreView,
    function: crate::common::ast::FunctionView,
    values: Seq<ObjectView>,
    depth: int,
)
    requires
        0 <= depth < store.frames.len(),
    ensures
        keeps(store.frames, store.enter_function(function, values), depth),
{
    reveal(StoreView::enter_function);
    lemma_take(store.frames, FrameView::Call(store.variables), depth);
}

proof fn lemma_execute(store: StoreView, statement: StatementView, depth: int)
    requires
        0 <= depth < store.frames.len(),
    ensures
        keeps(store.frames, store.execute(statement), depth),
{
    reveal(StoreView::execute);
    reveal(StoreView::execute_builtin);
    reveal(StoreView::shorten);
    match statement {
        StatementView::Let(name, _) => {
            lemma_take(store.frames, FrameView::Let(name), depth);
        },
        StatementView::Assignment(name, _) => {
            lemma_take(store.frames, FrameView::Assign(name), depth);
        },
        StatementView::Function(_) => {},
        StatementView::BuiltinFunction(builtin, arguments) => {
            lemma_take(store.frames, FrameView::Write(arguments, 1), depth);
            if arguments.len() > 1 && arguments[1] is Identifier {
                lemma_take(store.frames, FrameView::Push(arguments[1]->Identifier_0), depth);
            }
            if arguments.len() > 0 && arguments[0] is Identifier {
                let name = arguments[0]->Identifier_0;
                if store.variables.contains_key(name.lexeme) {
                    lemma_rebind(
                        store,
                        name,
                        store.variables[name.lexeme].popped().with_meta(
                            crate::common::object::Meta { is_return: false },
                        ),
                        depth,
                    );
                }
            }
        },
        StatementView::Return(_) => {
            lemma_take(store.frames, FrameView::Return, depth);
        },
        StatementView::Expression(_) => {},
    }
}

proof fn lemma_evaluate(store: StoreView, expression: ExpressionView, depth: int)
    requires
        0 <= depth < store.frames.len(),
    ensures
        keeps(store.frames, store.evaluate(expression), depth),
{
    reveal(StoreView::evaluate);
    reveal(StoreView::enter_if);
    reveal(StoreView::literal);
    reveal(StoreView::call);
    match expression {
        ExpressionView::Block(statements) => {
            lemma_enter_block(store, statements, depth);
        },
        ExpressionView::If(branch) => {
            lemma_take(
                store.frames,
                FrameView::Condition(branch.if_block, branch.else_block),
                depth,
            );
        },
        ExpressionView::Binary(_, operator, right) => {
            lemma_take(store.frames, FrameView::Left(operator, *right), depth);
        },
        ExpressionView::Unary(operator, _) => {
            lemma_take(store.frames, FrameView::Unary(operator), depth);
        },
        ExpressionView::Group(_) => {},
        ExpressionView::Call(callee, arguments) => {
            if store.functions.contains_key(callee.lexeme) {
                let function = store.functions[callee.lexeme];
                lemma_enter_function(store, function, Seq::empty(), depth);
                lemma_take(
                    store.frames,
                    FrameView::Arguments(function, arguments, Seq::empty()),
                    depth,
                );
            }
        },
        ExpressionView::Identifier(_) => {},
        ExpressionView::Literal(_) => {},
        ExpressionView::Array(tokens) => {
            lemma_gather(store, tokens, 0, Seq::empty(), depth);
        },
    }
}

/// What a frame does with a value touches nothing below where the frame stood.
proof fn lemma_receive(rest: StoreView, frame: FrameView, value: ObjectView, depth: int)
    requires
        0 <= depth < rest.frames.len(),
    ensures
        keeps(rest.frames, rest.receive(frame, value), depth),
{
    reveal(StoreView::receive);
    reveal(StoreView::next_of_program);
    reveal(StoreView::next_of_block);
    reveal(StoreView::branch);
    reveal(StoreView::next_argument);
    reveal(StoreView::append);
    match frame {
        FrameView::Program(statements, next) => {
            lemma_take(rest.frames, FrameView::Program(statements, next + 1), depth);
        },
        FrameView::Block(statements, next, saved) => {
            lemma_take(rest.frames, FrameView::Block(statements, next + 1, saved), depth);
        },
        FrameView::Left(operator, _) => {
            lemma_take(rest.frames, FrameView::Right(operator, value), depth);
        },
        FrameView::Right(operator, left) => {
            lemma_settle(rest, crate::runtime::operators::binary(operator, left, value), depth);
        },
        FrameView::Unary(operator) => {
            lemma_settle(rest, crate::runtime::operators::unary(operator, value), depth);
        },
        FrameView::Arguments(function, arguments, values) => {
            lemma_take(
                rest.frames,
                FrameView::Arguments(function, arguments, values.push(value)),
                depth,
            );
            lemma_enter_function(rest, function, values.push(value), depth);
        },
        FrameView::Write(arguments, next) => {
            lemma_take(rest.frames, FrameView::Write(arguments, next), depth);
        },
        FrameView::Push(name) => {
            if rest.variables.contains_key(name.lexeme) {
                lemma_rebind(
                    rest,
                    name,
                    rest.variables[name.lexeme].pushed(value).with_meta(
                        crate::common::object::Meta { is_return: false },
                    ),
                    depth,
                );
            }
        },
        FrameView::Array(tokens, next, found) => {
            lemma_gather(rest, tokens, next, found.push(value), depth);
        },
        _ => {},
    }
}

/// One step under a block or a call whose frame stands at `depth`: unless the
/// step fails, either the frame is still there, with the same variables to
/// bring back and everything below it untouched, or it has just left, and then
/// the variables are those it found on entry, the stack is what was below it,
/// and a value is delivered, which after a call is not marked as returning.
pub proof fn lemma_scope_step(machine: MachineView, event: EventView, depth: int)
    requires
        0 <= depth < machine.store.frames.len(),
        saved_by(machine.store.frames[depth]) is Some,
    ensures
        ({
            let next = machine.step(event);
            let after = next.machine.store;
            ||| next.action is Fail
            ||| {
                &&& after.frames.len() > depth
                &&& saved_by(after.frames[depth]) == saved_by(machine.store.frames[depth])
                &&& after.frames[depth] is Call == machine.store.frames[depth] is Call
                &&& after.frames.take(depth) == machine.store.frames.take(depth)
            }
            ||| {
                &&& after.frames == machine.store.frames.take(depth)
                &&& Some(after.variables) == saved_by(machine.store.frames[depth])
                &&& next.machine.control is Deliver
                &&& machine.store.frames[depth] is Call
                    ==> !next.machine.control->Deliver_0.meta().is_return
            }
        }),
{
    let store = machine.store;
    let frames = store.frames;
    let next = machine.step(event);
    let after = next.machine.store;
    assert(keeps(frames, next, depth) && !(next.action is Fail) ==> {
        &&& after.frames.len() > depth
        &&& after.frames[depth] == frames[depth]
        &&& after.frames.take(depth) == frames.take(depth)
    }) by {
        if keeps(frames, next, depth) && !(next.action is Fail) {
            assert(after.frames.take(depth + 1)[depth] == frames.take(depth + 1)[depth]);
            assert(after.frames.take(depth) =~= after.frames.take(depth + 1).take(depth));
            assert(frames.take(depth) =~= frames.take(depth + 1).take(depth));
        }
    }
    match machine.control {
        ControlView::Idle => {
            assert(keeps(frames, next, depth));
        },
        ControlView::Execute(statement) => {
            lemma_execute(store, statement, depth);
        },
        ControlView::Evaluate(expression) => {
            lemma_evaluate(store, expression, depth);
        },
        ControlView::Deliver(value) => {
            reveal(StoreView::deliver);
            if frames.len() > depth + 1 {
                lemma_receive(store.pop(), frames.last(), value, depth);
                lemma_take(frames, frames.last(), depth);
            } else {
                reveal(StoreView::receive);
                reveal(StoreView::next_of_block);
                assert(frames.drop_last() =~= frames.take(depth));
                match frames.last() {
                    FrameView::Block(statements, at, saved) => {
                        let again = FrameView::Block(statements, at + 1, saved);
                        assert(frames.drop_last().push(again).take(depth) =~= frames.take(depth));
                    },
                    _ => {},
                }
            }
        },
        ControlView::Parsing(_) => {
            assert(keeps(frames, next, depth));
        },
        ControlView::Computing(..) => {
            assert(keeps(frames, next, depth));
        },
        ControlView::Reading(name) => {
            reveal(StoreView::read);
            match event {
                EventView::Line(line) => {
                    lemma_rebind(
                        store,
                        name,
                        ObjectView::String(
                            crate::common::text::trimmed(line),
                            crate::common::object::Meta { is_return: false },
                        ),
                        depth,
                    );
                },
                _ => {
                    assert(keeps(frames, next, depth));
                },
            }
        },
        ControlView::Writing(_) => {
            reveal(StoreView::written);
            match event {
                EventView::Resume => {
                    if frames.last() is Write {
                        let arguments = frames.last()->Write_0;
                        let at = frames.last()->Write_1;
                        lemma_take(frames, FrameView::Write(arguments, at + 1), depth);
                    }
                    assert(keeps(frames, next, depth));
                },
                _ => {
                    assert(keeps(frames, next, depth));
                },
            }
        },
    }
}

/// The machine after steps on `events`, one after the other, for as long as the
/// stack is higher than `depth`, no step has failed and events are left; with it
/// the action of the last step.
pub open spec fn run_above(machine: MachineView, events: Seq<EventView>, depth: int) -> StepView
    decreases events.len(),
{
    if events.len() == 0 || machine.store.frames.len() <= depth {
        StepView { machine, action: ActionView::Continue }
    } else {
        let next = machine.step(events[0]);
        if next.action is Fail || next.machine.store.frames.len() <= depth {
            next
        } else {
            run_above(next.machine, events.drop_first(), depth)
        }
    }
}

/// A block or a call whose frame stands at `depth` leaves the variables as it
/// found them: when the run has brought the stack down to `depth` without
/// failing, the variables are those that the frame had kept, whatever was
/// declared or assigned meanwhile, and the stack is what was below the frame.
/// The value that a call delivers is not marked as returning: a `return` in
/// the body ends that body and nothing more.
pub proof fn lemma_scope_restores(machine: MachineView, events: Seq<EventView>, depth: int)
    requires
        0 <= depth < machine.store.frames.len(),
        saved_by(machine.store.frames[depth]) is Some,
    ensures
        ({
            let end = run_above(machine, events, depth);
            !(end.action is Fail) && end.machine.store.frames.len() <= depth ==> {
                &&& Some(end.machine.store.variables) == saved_by(machine.store.frames[depth])
                &&& end.machine.store.frames == machine.store.frames.take(depth)
                &&& end.machine.control is Deliver
                &&& machine.store.frames[depth] is Call
                    ==> !end.machine.control->Deliver_0.meta().is_return
            }
        }),
    decreases events.len(),
{
    if events.len() > 0 {
        let next = machine.step(events[0]);
        lemma_scope_step(machine, events[0], depth);
        if !(next.action is Fail) && next.machine.store.frames.len() > depth {
            lemma_scope_restores(next.machine, events.drop_first(), depth);
        }
    }
}

/// A call leaves the variables of the caller as they were, and what it gives is
/// not marked as returning. From a store that enters a function with the values
/// of its arguments, once the run is back at the height of the stack from which
/// it started, without having failed, variables and stack are what they were.
pub proof fn lemma_call_keeps_variables(
    store: StoreView,
    function: crate::common::ast::FunctionView,
    values: Seq<ObjectView>,
    events: Seq<EventView>,
)
    ensures
        ({
            let entered = store.enter_function(function, values);
            let end = run_above(entered.machine, events, store.frames.len() as int);
            !(end.action is Fail) && end.machine.store.frames.len() <= store.frames.len() ==> {
                &&& end.machine.store.variables == store.variables
                &&& end.machine.store.frames == store.frames
                &&& end.machine.control is Deliver
                &&& !end.machine.control->Deliver_0.meta().is_return
            }
        }),
{
    reveal(StoreView::enter_function);
    let depth = store.frames.len() as int;
    let entered = store.enter_function(function, values);
    assert(entered.machine.store.frames == store.frames.push(FrameView::Call(store.variables)));
    assert(entered.machine.store.frames.take(depth) =~= store.frames);
    lemma_scope_restores(entered.machine, events, depth);
}

/// A frame that waits for the value of a part of an expression.
pub open spec fn is_operand_frame(frame: FrameView) -> bool {
    frame is Left || frame is Right || frame is Unary || frame is Condition || frame is Arguments
        || frame is Array
}

/// The frames from `from` up to, not with, `upto` all wait for operands.
pub open spec fn operands_only(frames: Seq<FrameView>, from: int, upto: int) -> bool {
    forall|i: int| from <= i < upto ==> is_operand_frame(#[trigger] frames[i])
}

/// The machine is in the middle of evaluating an expression that was begun on
/// the stack `base` with the variables `variables`: the stack still starts
/// with `base`, and either nothing but operands is waited for above it and the
/// variables are unchanged, or the lowest frame above it that is no operand
/// frame is a block or a call that will bring those variables back.
pub open spec fn within_expression(
    machine: MachineView,
    base: Seq<FrameView>,
    variables: Variables,
) -> bool {
    let frames = machine.store.frames;
    &&& frames.len() >= base.len()
    &&& frames.take(base.len() as int) == base
    &&& {
        ||| {
            &&& operands_only(frames, base.len() as int, frames.len() as int)
            &&& machine.store.variables == variables
            &&& (machine.control is Evaluate || machine.control is Deliver
                || machine.control is Parsing || machine.control is Computing)
        }
        ||| exists|scope: int|
            {
                &&& base.len() <= scope < frames.len()
                &&& operands_only(frames, base.len() as int, scope)
                &&& saved_by(#[trigger] frames[scope]) == Some(variables)
            }
    }
}

/// The value of the expression that was begun at the height `depth` is there.
pub open spec fn has_value(machine: MachineView, depth: int) -> bool {
    machine.control is Deliver && machine.store.frames.len() <= depth
}

/// The stack still starts with `base` after a frame was put on it or the
/// topmost of the frames above `base` was taken off, and the frames that
/// waited for operands below the top still do.
proof fn lemma_base(frames: Seq<FrameView>, frame: FrameView, base: Seq<FrameView>)
    requires
        frames.len() >= base.len(),
        frames.take(base.len() as int) == base,
        operands_only(frames, base.len() as int, frames.len() as int),
    ensures
        frames.push(frame).take(base.len() as int) == base,
        operands_only(frames.push(frame), base.len() as int, frames.len() as int),
        frames.len() > base.len() ==> frames.drop_last().take(base.len() as int) == base,
        frames.len() > base.len() ==> frames.drop_last().push(frame).take(base.len() as int)
            == base,
        frames.len() > base.len() ==> operands_only(
            frames.drop_last(),
            base.len() as int,
            frames.len() - 1,
        ),
        frames.len() > base.len() ==> operands_only(
            frames.drop_last().push(frame),
            base.len() as int,
            frames.len() - 1,
        ),
{
    let depth = base.len() as int;
    assert(frames.push(frame).take(depth) =~= frames.take(depth));
    assert forall|i: int| depth <= i < frames.len() implies is_operand_frame(
        #[trigger] frames.push(frame)[i],
    ) by {
        assert(frames.push(frame)[i] == frames[i]);
    }
    if frames.len() > depth {
        assert(frames.drop_last().take(depth) =~= frames.take(depth));
        assert(frames.drop_last().push(frame).take(depth) =~= frames.take(depth));
        assert forall|i: int| depth <= i < frames.len() - 1 implies is_operand_frame(
            #[trigger] frames.drop_last()[i],
        ) by {
            assert(frames.drop_last()[i] == frames[i]);
        }
        assert forall|i: int| depth <= i < frames.len() - 1 implies is_operand_frame(
            #[trigger] frames.drop_last().push(frame)[i],
        ) by {
            assert(frames.drop_last().push(frame)[i] == frames[i]);
        }
    }
}

/// The step has failed, or the machine is still within the expression.
pub open spec fn carries_on(step: StepView, base: Seq<FrameView>, variables: Variables) -> bool {
    step.action is Fail || within_expression(step.machine, base, variables)
}

/// The store of a machine within an expression, with nothing but operands
/// waited for above `base`.
spec fn among_operands(store: StoreView, base: Seq<FrameView>) -> bool {
    &&& store.frames.len() >= base.len()
    &&& store.frames.take(base.len() as int) == base
    &&& operands_only(store.frames, base.len() as int, store.frames.len() as int)
}

/// A step that leaves the frames as they are and the variables too, and goes on
/// evaluating, carries on.
proof fn lemma_same_frames(store: StoreView, step: StepView, base: Seq<FrameView>)
    requires
        among_operands(store, base),
        step.machine.store == store,
        step.machine.control is Evaluate || step.machine.control is Deliver
            || step.machine.control is Parsing || step.machine.control is Computing,
    ensures
        carries_on(step, base, store.variables),
{
}

/// A step that puts an operand frame on the stack, leaves the variables as they
/// are and goes on evaluating, carries on.
proof fn lemma_operand_pushed(
    store: StoreView,
    frame: FrameView,
    step: StepView,
    base: Seq<FrameView>,
)
    requires
        among_operands(store, base),
        is_operand_frame(frame),
        step.machine.store == store.push(frame),
        step.machine.control is Evaluate || step.machine.control is Deliver
            || step.machine.control is Parsing || step.machine.control is Computing,
    ensures
        carries_on(step, base, store.variables),
{
    lemma_base(store.frames, frame, base);
    let frames = store.frames.push(frame);
    assert forall|i: int| base.len() <= i < frames.len() implies is_operand_frame(
        #[trigger] frames[i],
    ) by {
        if i < store.frames.len() {
            assert(frames[i] == store.frames[i]);
        }
    }
}

/// A step that puts a block or a call on the stack that keeps the variables
/// carries on, whatever it does to the variables and whatever it goes on with.
proof fn lemma_scope_pushed(
    store: StoreView,
    frame: FrameView,
    step: StepView,
    base: Seq<FrameView>,
)
    requires
        among_operands(store, base),
        saved_by(frame) == Some(store.variables),
        step.machine.store.frames == store.frames.push(frame),
    ensures
        carries_on(step, base, store.variables),
{
    lemma_base(store.frames, frame, base);
    let frames = store.frames.push(frame);
    let scope = store.frames.len() as int;
    assert(frames[scope] == frame);
    assert(operands_only(frames, base.len() as int, scope));
}

proof fn lemma_settle_carries_on(store: StoreView, outcome: OutcomeView, base: Seq<FrameView>)
    requires
        among_operands(store, base),
    ensures
        carries_on(store.settle(outcome), base, store.variables),
{
    reveal(StoreView::settle);
    if !(outcome is Failure) {
        lemma_same_frames(store, store.settle(outcome), base);
    }
}

proof fn lemma_gather_carries_on(
    store: StoreView,
    tokens: Seq<TokenView>,
    from: int,
    found: Seq<ObjectView>,
    base: Seq<FrameView>,
)
    requires
        among_operands(store, base),
    ensures
        carries_on(store.gather(tokens, from, found), base, store.variables),
{
    reveal(StoreView::gather);
    let (stop, items) = crate::runtime::machine::gathered(tokens, from, found);
    if 0 <= stop < tokens.len() {
        lemma_operand_pushed(
            store,
            FrameView::Array(tokens, stop + 1, items),
            store.gather(tokens, from, found),
            base,
        );
    } else {
        lemma_same_frames(store, store.gather(tokens, from, found), base);
    }
}

proof fn lemma_enter_block_carries_on(
    store: StoreView,
    statements: Seq<StatementView>,
    base: Seq<FrameView>,
)
    requires
        among_operands(store, base),
    ensures
        carries_on(store.enter_block(statements), base, store.variables),
{
    reveal(StoreView::enter_block);
    if statements.len() == 0 {
        lemma_same_frames(store, store.enter_block(statements), base);
    } else {
        lemma_scope_pushed(
            store,
            FrameView::Block(statements, 1, store.variables),
            store.enter_block(statements),
            base,
        );
    }
}

proof fn lemma_enter_function_carries_on(
    store: StoreView,
    function: crate::common::ast::FunctionView,
    values: Seq<ObjectView>,
    base: Seq<FrameView>,
)
    requires
        among_operands(store, base),
    ensures
        carries_on(store.enter_function(function, values), base, store.variables),
{
    reveal(StoreView::enter_function);
    lemma_scope_pushed(
        store,
        FrameView::Call(store.variables),
        store.enter_function(function, values),
        base,
    );
}

proof fn lemma_evaluate_carries_on(
    store: StoreView,
    expression: ExpressionView,
    base: Seq<FrameView>,
)
    requires
        among_operands(store, base),
    ensures
        carries_on(store.evaluate(expression), base, store.variables),
{
    reveal(StoreView::evaluate);
    reveal(StoreView::enter_if);
    reveal(StoreView::literal);
    reveal(StoreView::call);
    let step = store.evaluate(expression);
    match expression {
        ExpressionView::Block(statements) => {
            lemma_enter_block_carries_on(store, statements, base);
        },
        ExpressionView::If(branch) => {
            lemma_operand_pushed(
                store,
                FrameView::Condition(branch.if_block, branch.else_block),
                step,
                base,
            );
        },
        ExpressionView::Binary(_, operator, right) => {
            lemma_operand_pushed(store, FrameView::Left(operator, *right), step, base);
        },
        ExpressionView::Unary(operator, _) => {
            lemma_operand_pushed(store, FrameView::Unary(operator), step, base);
        },
        ExpressionView::Group(_) => {
            lemma_same_frames(store, step, base);
        },
        ExpressionView::Call(callee, arguments) => {
            if store.functions.contains_key(callee.lexeme) {
                let function = store.functions[callee.lexeme];
                if function.paramiters.len() != arguments.len() {
                } else if arguments.len() == 0 {
                    lemma_enter_function_carries_on(store, function, Seq::empty(), base);
                } else {
                    lemma_operand_pushed(
                        store,
                        FrameView::Arguments(function, arguments, Seq::empty()),
                        step,
                        base,
                    );
                }
            }
        },
        ExpressionView::Identifier(name) => {
            if store.variables.contains_key(name.lexeme) {
                lemma_same_frames(store, step, base);
            }
        },
        ExpressionView::Literal(_) => {
            lemma_same_frames(store, step, base);
        },
        ExpressionView::Array(tokens) => {
            lemma_gather_carries_on(store, tokens, 0, Seq::empty(), base);
        },
    }
}

proof fn lemma_receive_carries_on(
    rest: StoreView,
    frame: FrameView,
    value: ObjectView,
    base: Seq<FrameView>,
)
    requires
        among_operands(rest, base),
        is_operand_frame(frame),
    ensures
        carries_on(rest.receive(frame, value), base, rest.variables),
{
    reveal(StoreView::receive);
    reveal(StoreView::branch);
    reveal(StoreView::next_argument);
    let step = rest.receive(frame, value);
    match frame {
        FrameView::Condition(..) => {
            lemma_same_frames(rest, step, base);
        },
        FrameView::Left(operator, _) => {
            lemma_operand_pushed(rest, FrameView::Right(operator, value), step, base);
        },
        FrameView::Right(operator, left) => {
            lemma_settle_carries_on(
                rest,
                crate::runtime::operators::binary(operator, left, value),
                base,
            );
        },
        FrameView::Unary(operator) => {
            lemma_settle_carries_on(rest, crate::runtime::operators::unary(operator, value), base);
        },
        FrameView::Arguments(function, arguments, values) => {
            let ready = values.push(value);
            if ready.len() < arguments.len() {
                lemma_operand_pushed(
                    rest,
                    FrameView::Arguments(function, arguments, ready),
                    step,
                    base,
                );
            } else {
                lemma_enter_function_carries_on(rest, function, ready, base);
            }
        },
        FrameView::Array(tokens, next, found) => {
            lemma_gather_carries_on(rest, tokens, next, found.push(value), base);
        },
        _ => {},
    }
}

/// One step within an expression whose value is not there yet: unless the step
/// fails, the machine is still within the expression.
pub proof fn lemma_expression_step(
    machine: MachineView,
    event: EventView,
    base: Seq<FrameView>,
    variables: Variables,
)
    requires
        within_expression(machine, base, variables),
        !has_value(machine, base.len() as int),
    ensures
        carries_on(machine.step(event), base, variables),
{
    let store = machine.store;
    let frames = store.frames;
    let depth = base.len() as int;
    let next = machine.step(event);
    if exists|scope: int|
        {
            &&& depth <= scope < frames.len()
            &&& operands_only(frames, depth, scope)
            &&& saved_by(#[trigger] frames[scope]) == Some(variables)
        } {
        let scope = choose|scope: int|
            {
                &&& depth <= scope < frames.len()
                &&& operands_only(frames, depth, scope)
                &&& saved_by(#[trigger] frames[scope]) == Some(variables)
            };
        lemma_scope_step(machine, event, scope);
        if !(next.action is Fail) {
            let after = next.machine.store.frames;
            assert(frames.take(scope).take(depth) =~= frames.take(depth));
            if after.len() > scope && after.take(scope) == frames.take(scope) && saved_by(
                after[scope],
            ) == saved_by(frames[scope]) {
                assert(after.take(scope).take(depth) =~= after.take(depth));
                assert forall|i: int| depth <= i < scope implies is_operand_frame(
                    #[trigger] after[i],
                ) by {
                    assert(after[i] == after.take(scope)[i]);
                    assert(frames[i] == frames.take(scope)[i]);
                }
                assert(saved_by(after[scope]) == Some(variables));
            } else {
                assert(after == frames.take(scope));
                assert forall|i: int| depth <= i < after.len() implies is_operand_frame(
                    #[trigger] after[i],
                ) by {
                    assert(after[i] == frames[i]);
                }
            }
        }
    } else {
        assert(among_operands(store, base));
        match machine.control {
            ControlView::Evaluate(expression) => {
                lemma_evaluate_carries_on(store, expression, base);
            },
            ControlView::Deliver(value) => {
                reveal(StoreView::deliver);
                lemma_base(frames, frames.last(), base);
                assert(is_operand_frame(frames[frames.len() - 1]));
                lemma_receive_carries_on(store.pop(), frames.last(), value, base);
            },
            ControlView::Parsing(_) => {
                match event {
                    EventView::Number(_) => {
                        lemma_same_frames(store, next, base);
                    },
                    EventView::Invalid => {},
                    _ => {
                        lemma_same_frames(store, next, base);
                    },
                }
            },
            ControlView::Computing(..) => {
                lemma_same_frames(store, next, base);
            },
            _ => {},
        }
    }
}

/// The machine after steps on `events`, one after the other, until the value
/// of the expression that was begun at the height `depth` is there, a step has
/// failed or no event is left; with it the action of the last step.
pub open spec fn run_to_value(machine: MachineView, events: Seq<EventView>, depth: int) -> StepView
    decreases events.len(),
{
    if events.len() == 0 || has_value(machine, depth) {
        StepView { machine, action: ActionView::Continue }
    } else {
        let next = machine.step(events[0]);
        if next.action is Fail {
            next
        } else {
            run_to_value(next.machine, events.drop_first(), depth)
        }
    }
}

proof fn lemma_within_expression_to_value(
    machine: MachineView,
    events: Seq<EventView>,
    base: Seq<FrameView>,
    variables: Variables,
)
    requires
        within_expression(machine, base, variables),
    ensures
        ({
            let end = run_to_value(machine, events, base.len() as int);
            !(end.action is Fail) && has_value(end.machine, base.len() as int) ==> {
                &&& end.machine.store.variables == variables
                &&& end.machine.store.frames == base
            }
        }),
    decreases events.len(),
{
    let depth = base.len() as int;
    if has_value(machine, depth) {
        assert(machine.store.frames =~= machine.store.frames.take(depth));
    } else if events.len() > 0 {
        lemma_expression_step(machine, events[0], base, variables);
        let next = machine.step(events[0]);
        if !(next.action is Fail) {
            lemma_within_expression_to_value(next.machine, events.drop_first(), base, variables);
        }
    }
}

/// Evaluating an expression leaves the variables as they were, whatever blocks
/// and calls the expression holds and whatever they declare and assign: from a
/// machine that is about to evaluate an expression, when its value is there
/// and no step has failed, variables and stack are what they were.
pub proof fn lemma_expression_keeps_variables(
    machine: MachineView,
    expression: ExpressionView,
    events: Seq<EventView>,
)
    requires
        machine.control == ControlView::Evaluate(expression),
    ensures
        ({
            let end = run_to_value(machine, events, machine.store.frames.len() as int);
            !(end.action is Fail) && has_value(end.machine, machine.store.frames.len() as int)
                ==> {
                &&& end.machine.store.variables == machine.store.variables
                &&& end.machine.store.frames == machine.store.frames
            }
        }),
{
    let base = machine.store.frames;
    assert(base.take(base.len() as int) =~= base);
    lemma_within_expression_to_value(machine, events, base, machine.store.variables);
}

/// The machine after `count` steps on the first events of `events`.
pub open spec fn after_steps(machine: MachineView, events: Seq<EventView>, count: nat) -> MachineView
    decreases count,
{
    if count == 0 || events.len() == 0 {
        machine
    } else {
        after_steps(machine.step(events[0]).machine, events.drop_first(), (count - 1) as nat)
    }
}

/// The frames above `depth` are all blocks.
pub open spec fn blocks_above(frames: Seq<FrameView>, depth: int) -> bool {
    forall|i: int| depth < i < frames.len() ==> (#[trigger] frames[i]) is Block
}

/// A value that is marked as returning ends every block it is delivered to
/// and then the call in which they stand: where a call stands at `depth` with
/// nothing but blocks above it and such a value is delivered, one step for each
/// of these frames brings the machine to the caller, with the caller's
/// variables and stack, and delivers the value there without its mark. No
/// statement that follows in any of the blocks is executed on the way.
pub proof fn lemma_return_unwinds(
    machine: MachineView,
    events: Seq<EventView>,
    value: ObjectView,
    depth: int,
)
    requires
        machine.control == ControlView::Deliver(value),
        value.meta().is_return,
        0 <= depth < machine.store.frames.len(),
        machine.store.frames[depth] is Call,
        blocks_above(machine.store.frames, depth),
        events.len() >= machine.store.frames.len() - depth,
    ensures
        after_steps(machine, events, (machine.store.frames.len() - depth) as nat) == (MachineView {
            store: StoreView {
                variables: machine.store.frames[depth]->Call_0,
                functions: machine.store.functions,
                frames: machine.store.frames.take(depth),
            },
            control: ControlView::Deliver(
                value.with_meta(crate::common::object::Meta { is_return: false }),
            ),
        }),
    decreases machine.store.frames.len() - depth,
{
    reveal(StoreView::deliver);
    reveal(StoreView::receive);
    reveal(StoreView::next_of_block);
    let frames = machine.store.frames;
    let next = machine.step(events[0]).machine;
    let count = (frames.len() - depth) as nat;
    if frames.len() == depth + 1 {
        assert(frames.drop_last() =~= frames.take(depth));
        assert(after_steps(next, events.drop_first(), 0) == next);
    } else {
        assert(frames.last() is Block);
        assert(next.store.frames == frames.drop_last());
        assert(next.store.frames[depth] == frames[depth]);
        assert forall|i: int| depth < i < next.store.frames.len() implies (
        #[trigger] next.store.frames[i]) is Block by {
            assert(next.store.frames[i] == frames[i]);
        }
        assert(next.store.frames.take(depth) =~= frames.take(depth));
        lemma_return_unwinds(next, events.drop_first(), value, depth);
        assert(after_steps(machine, events, count) == after_steps(
            next,
            events.drop_first(),
            (count - 1) as nat,
        ));
    }
}

/// A block leaves the variables as it found them: no name that was declared
/// inside is bound afterwards, and every name that was bound before has the
/// value it had, whatever the block declared or assigned. From a store that
/// enters a block, when the value of the block is there and no step has failed,
/// variables and stack are what they were.
pub proof fn lemma_block_keeps_variables(
    store: StoreView,
    statements: Seq<StatementView>,
    events: Seq<EventView>,
)
    ensures
        ({
            let entered = store.enter_block(statements);
            let end = run_to_value(entered.machine, events, store.frames.len() as int);
            !(end.action is Fail) && has_value(end.machine, store.frames.len() as int) ==> {
                &&& end.machine.store.variables == store.variables
                &&& end.machine.store.frames == store.frames
            }
        }),
{
    reveal(StoreView::enter_block);
    let base = store.frames;
    let entered = store.enter_block(statements).machine;
    assert(base.take(base.len() as int) =~= base);
    if statements.len() > 0 {
        let frame = FrameView::Block(statements, 1, store.variables);
        assert(entered.store.frames == base.push(frame));
        assert(entered.store.frames.take(base.len() as int) =~= base);
        assert(saved_by(entered.store.frames[base.len() as int]) == Some(store.variables));
        assert(operands_only(entered.store.frames, base.len() as int, base.len() as int));
    } else {
        assert(operands_only(entered.store.frames, base.len() as int, base.len() as int));
    }
    assert(within_expression(entered, base, store.variables));
    lemma_within_expression_to_value(entered, events, base, store.variables);
}

/// No block or call stands among the first `count` frames.
pub open spec fn no_scope_below(frames: Seq<FrameView>, count: int) -> bool {
    forall|i: int| 0 <= i < count ==> saved_by(#[trigger] frames[i]) is None
}

/// Where the lowest block or call stands at `depth`, leaving all of them brings
/// back the variables that this one found.
proof fn lemma_unwound(frames: Seq<FrameView>, from: int, depth: int, variables: Variables)
    requires
        0 <= from <= depth < frames.len(),
        no_scope_below(frames, depth),
        saved_by(frames[depth]) is Some,
    ensures
        Some(unwound(frames, from, variables)) == saved_by(frames[depth]),
    decreases depth - from,
{
    if from < depth {
        lemma_unwound(frames, from + 1, depth, variables);
    }
}

/// Failing on a store whose lowest block or call stands at `depth` leaves the
/// variables that this block or call found on entry.
proof fn lemma_fail_restores(store: StoreView, error: crate::common::error::ErrorView, depth: int)
    requires
        0 <= depth < store.frames.len(),
        no_scope_below(store.frames, depth),
        saved_by(store.frames[depth]) is Some,
    ensures
        Some(store.fail(error).machine.store.variables) == saved_by(store.frames[depth]),
{
    lemma_unwound(store.frames, 0, depth, store.variables);
}

/// A step that fails under a block or a call leaves nothing of what was
/// declared or assigned inside: where the lowest block or call on the stack
/// stands at `depth`, a failing step leaves the variables that this block or
/// call found on entry, and an empty stack.
pub proof fn lemma_failure_restores_step(machine: MachineView, event: EventView, depth: int)
    requires
        0 <= depth < machine.store.frames.len(),
        no_scope_below(machine.store.frames, depth),
        saved_by(machine.store.frames[depth]) is Some,
    ensures
        machine.step(event).action is Fail ==> {
            &&& Some(machine.step(event).machine.store.variables) == saved_by(
                machine.store.frames[depth],
            )
            &&& machine.step(event).machine.store.frames.len() == 0
        },
{
    let store = machine.store;
    let frames = store.frames;
    reveal(StoreView::deliver);
    reveal(StoreView::read);
    reveal(StoreView::written);
    reveal(StoreView::settle);
    reveal(StoreView::rebind);
    reveal(StoreView::execute);
    reveal(StoreView::execute_builtin);
    reveal(StoreView::shorten);
    reveal(StoreView::evaluate);
    reveal(StoreView::enter_block);
    reveal(StoreView::enter_if);
    reveal(StoreView::literal);
    reveal(StoreView::call);
    reveal(StoreView::enter_function);
    reveal(StoreView::gather);
    reveal(StoreView::receive);
    reveal(StoreView::next_of_program);
    reveal(StoreView::next_of_block);
    reveal(StoreView::branch);
    reveal(StoreView::next_argument);
    reveal(StoreView::append);
    assert forall|error: crate::common::error::ErrorView|
        Some((#[trigger] store.fail(error)).machine.store.variables) == saved_by(
            frames[depth],
        ) by {
        lemma_fail_restores(store, error, depth);
    }
    if machine.control is Deliver && frames.len() > depth + 1 {
        let rest = store.pop();
        assert(rest.frames[depth] == frames[depth]);
        assert forall|i: int| 0 <= i < depth implies saved_by(#[trigger] rest.frames[i]) is None by {
            assert(rest.frames[i] == frames[i]);
        }
        assert forall|error: crate::common::error::ErrorView|
            Some((#[trigger] rest.fail(error)).machine.store.variables) == saved_by(
                frames[depth],
            ) by {
            lemma_fail_restores(rest, error, depth);
        }
    }
}

/// A block or a call that fails leaves the variables as it found them: where
/// the lowest block or call on the stack stands at `depth`, a run that ends in
/// a failure while that block or call is open ends with the variables that it
/// found on entry. What a failed block declared or assigned is gone.
pub proof fn lemma_failure_restores(machine: MachineView, events: Seq<EventView>, depth: int)
    requires
        0 <= depth < machine.store.frames.len(),
        no_scope_below(machine.store.frames, depth),
        saved_by(machine.store.frames[depth]) is Some,
    ensures
        run_above(machine, events, depth).action is Fail ==> Some(
            run_above(machine, events, depth).machine.store.variables,
        ) == saved_by(machine.store.frames[depth]),
    decreases events.len(),
{
    if events.len() > 0 {
        let next = machine.step(events[0]);
        lemma_failure_restores_step(machine, events[0], depth);
        lemma_scope_step(machine, events[0], depth);
        if !(next.action is Fail) && next.machine.store.frames.len() > depth {
            let after = next.machine.store.frames;
            assert forall|i: int| 0 <= i < depth implies saved_by(#[trigger] after[i]) is None by {
                assert(after[i] == after.take(depth)[i]);
                assert(machine.store.frames[i] == machine.store.frames.take(depth)[i]);
            }
            lemma_failure_restores(next.machine, events.drop_first(), depth);
        }
    }
}

} // verus!
