//! What the rules of evaluation come to for whole constructs: a declaration, a
//! binary operator and an `if`, each from the step that takes it up to the
//! step that is done with it.

use crate::common::ast::{ElseView, ExpressionView, IfView, StatementView};
use crate::common::token::TokenView;
use crate::runtime::machine::{
    nil, ControlView, EventView, FrameView, MachineView, StoreView,
};
use crate::runtime::operators::binary;
use crate::runtime::scoping::{has_value, lemma_expression_keeps_variables, run_to_value};
use vstd::prelude::*;

verus! {

/// A declaration binds its name to the value of its expression and changes
/// nothing else: from a machine that is about to execute `let name = value`,
/// when the value of the expression is there and no step has failed, the next
/// step leaves the variables as they were before the statement but for `name`,
/// which now has that value, and the stack as it was.
pub proof fn lemma_let_declares(
    machine: MachineView,
    name: TokenView,
    value: ExpressionView,
    events: Seq<EventView>,
    last: EventView,
)
    requires
        machine.control == ControlView::Execute(StatementView::Let(name, value)),
        events.len() > 0,
    ensures
        ({
            let begun = machine.step(events[0]).machine;
            let end = run_to_value(begun, events.drop_first(), (machine.store.frames.len() + 1) as int);
            !(end.action is Fail) && has_value(end.machine, (machine.store.frames.len() + 1) as int) ==> {
                let result = end.machine.control->Deliver_0;
                end.machine.step(last) == (StoreView {
                    variables: machine.store.variables.insert(name.lexeme, result),
                    functions: end.machine.store.functions,
                    frames: machine.store.frames,
                }).go(ControlView::Deliver(result))
            }
        }),
{
    reveal(StoreView::execute);
    reveal(StoreView::deliver);
    reveal(StoreView::receive);
    let begun = machine.step(events[0]).machine;
    assert(begun.store.frames == machine.store.frames.push(FrameView::Let(name)));
    lemma_expression_keeps_variables(begun, value, events.drop_first());
    assert(machine.store.frames.push(FrameView::Let(name)).drop_last() =~= machine.store.frames);
}

/// A binary operator takes the value of its left operand, then that of its
/// right one, both in the variables that the expression found, and is then
/// applied to the two, whatever the operator is: from a machine that is about
/// to evaluate `left operator right`, when the value of `left` is there the
/// next step turns to `right`, and when the value of `right` is there the next
/// step is what the operator makes of the two values, with the variables and
/// the stack as they were.
pub proof fn lemma_binary_applies(
    machine: MachineView,
    left: ExpressionView,
    operator: TokenView,
    right: ExpressionView,
    first: EventView,
    during_left: Seq<EventView>,
    between: EventView,
    during_right: Seq<EventView>,
    last: EventView,
)
    requires
        machine.control == ControlView::Evaluate(
            ExpressionView::Binary(Box::new(left), operator, Box::new(right)),
        ),
    ensures
        ({
            let height = (machine.store.frames.len() + 1) as int;
            let left_end = run_to_value(machine.step(first).machine, during_left, height);
            !(left_end.action is Fail) && has_value(left_end.machine, height) ==> {
                let left_value = left_end.machine.control->Deliver_0;
                let turned = left_end.machine.step(between).machine;
                let right_end = run_to_value(turned, during_right, height);
                &&& turned.control == ControlView::Evaluate(right)
                &&& turned.store.variables == machine.store.variables
                &&& turned.store.frames == machine.store.frames.push(
                    FrameView::Right(operator, left_value),
                )
                &&& !(right_end.action is Fail) && has_value(right_end.machine, height) ==> {
                    let right_value = right_end.machine.control->Deliver_0;
                    right_end.machine.step(last) == (StoreView {
                        variables: machine.store.variables,
                        functions: right_end.machine.store.functions,
                        frames: machine.store.frames,
                    }).settle(
                        binary(operator, left_value, right_value),
                    )
                }
            }
        }),
{
    reveal(StoreView::evaluate);
    reveal(StoreView::deliver);
    reveal(StoreView::receive);
    let frames = machine.store.frames;
    let height = (frames.len() + 1) as int;
    let begun = machine.step(first).machine;
    assert(begun.store.frames == frames.push(FrameView::Left(operator, right)));
    lemma_expression_keeps_variables(begun, left, during_left);
    let left_end = run_to_value(begun, during_left, height);
    if !(left_end.action is Fail) && has_value(left_end.machine, height) {
        let left_value = left_end.machine.control->Deliver_0;
        let turned = left_end.machine.step(between).machine;
        assert(frames.push(FrameView::Left(operator, right)).drop_last() =~= frames);
        lemma_expression_keeps_variables(turned, right, during_right);
        assert(frames.push(FrameView::Right(operator, left_value)).drop_last() =~= frames);
    }
}

/// An `if` takes the value of its condition and then the block for it: from a
/// machine that is about to evaluate an `if`, when the value of the condition
/// is there, the next step turns to the first block if the value is truthy,
/// else to the `else` part, and without one delivers `nil`; the variables and
/// the stack are as they were.
pub proof fn lemma_if_branches(
    machine: MachineView,
    branch: IfView,
    first: EventView,
    during: Seq<EventView>,
    last: EventView,
)
    requires
        machine.control == ControlView::Evaluate(ExpressionView::If(branch)),
    ensures
        ({
            let height = (machine.store.frames.len() + 1) as int;
            let end = run_to_value(machine.step(first).machine, during, height);
            !(end.action is Fail) && has_value(end.machine, height) ==> {
                let condition = end.machine.control->Deliver_0;
                let store = StoreView {
                    variables: machine.store.variables,
                    functions: end.machine.store.functions,
                    frames: machine.store.frames,
                };
                end.machine.step(last) == if condition.truthy() {
                    store.go(ControlView::Evaluate(ExpressionView::Block(branch.if_block)))
                } else {
                    match branch.else_block {
                        None => store.go(ControlView::Deliver(nil())),
                        Some(part) => match *part {
                            ElseView::Block(block) => store.go(
                                ControlView::Evaluate(ExpressionView::Block(block)),
                            ),
                            ElseView::If(nested) => store.go(
                                ControlView::Evaluate(ExpressionView::If(nested)),
                            ),
                        },
                    }
                }
            }
        }),
{
    reveal(StoreView::evaluate);
    reveal(StoreView::enter_if);
    reveal(StoreView::deliver);
    reveal(StoreView::receive);
    reveal(StoreView::branch);
    let frames = machine.store.frames;
    let begun = machine.step(first).machine;
    let frame = FrameView::Condition(branch.if_block, branch.else_block);
    assert(begun.store.frames == frames.push(frame));
    lemma_expression_keeps_variables(begun, *branch.condition, during);
    assert(frames.push(frame).drop_last() =~= frames);
}

} // verus!
