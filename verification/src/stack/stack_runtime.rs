//! Pushing to and popping from the runtime value stack. Popping never
//! fails: where the stack holds no value, the number zero stands in.

use crate::ltypes::{LValue, LValueView};
use vstd::prelude::*;

verus! {

/// The value on top of `stack`, or the number zero where it is empty.
pub open spec fn top_of(stack: Seq<LValueView>) -> LValueView {
    if stack.len() > 0 {
        stack.last()
    } else {
        LValueView::Number(0)
    }
}

/// `stack` without its top value; the empty stack stays empty.
pub open spec fn without_top(stack: Seq<LValueView>) -> Seq<LValueView> {
    if stack.len() > 0 {
        stack.drop_last()
    } else {
        stack
    }
}

/// Takes the top value off the stack. An empty stack stays empty and
/// gives the number zero.
pub fn pop_one(list: &mut Vec<LValue>) -> (value: LValue)
    ensures
        value@ == top_of(old(list).deep_view()),
        final(list).deep_view() == without_top(old(list).deep_view()),
{
    match list.pop() {
        Some(value) => {
            value
        },
        None => LValue::Number(0),
    }
}

/// Takes the two top values off the stack and gives them in the order
/// in which they were pushed: the second from the top, then the top.
pub fn pop_two(list: &mut Vec<LValue>) -> (values: (LValue, LValue))
    ensures
        values.1@ == top_of(old(list).deep_view()),
        values.0@ == top_of(without_top(old(list).deep_view())),
        final(list).deep_view() == without_top(without_top(old(list).deep_view())),
{
    let first = pop_one(list);
    let second = pop_one(list);

    (second, first)
}

/// Puts a copy of `value` on top of the stack.
pub fn push_one(list: &mut Vec<LValue>, value: &LValue)
    ensures
        final(list).deep_view() == old(list).deep_view().push(value@),
{
    list.push(value.clone());
}

/// Puts copies of the two values on top of the stack, the first below
/// the second.
pub fn push_two(list: &mut Vec<LValue>, values: (&LValue, &LValue))
    ensures
        final(list).deep_view() == old(list).deep_view().push(values.0@).push(values.1@),
{
    let (first, second) = values;
    push_one(list, first);
    push_one(list, second);
}

} // verus!
