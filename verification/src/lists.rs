//! A helper for taking a list apart in order.

use vstd::prelude::*;

verus! {

/// The elements of a list in the opposite order.
pub fn reversed<T>(items: Vec<T>) -> (out: Vec<T>)
    ensures
        out@.len() == items@.len(),
        forall|i: int| 0 <= i < out@.len() ==> out@[i] == items@[items@.len() - 1 - i],
{
    let mut rest = items;
    let mut out: Vec<T> = Vec::new();
    while rest.len() > 0
        invariant
            rest@.len() + out@.len() == items@.len(),
            forall|i: int| 0 <= i < rest@.len() ==> rest@[i] == items@[i],
            forall|i: int| 0 <= i < out@.len() ==> out@[i] == items@[items@.len() - 1 - i],
        decreases rest@.len(),
    {
        match rest.pop() {
            Some(e) => {
                out.push(e);
            },
            None => {},
        }
    }
    out
}

} // verus!
