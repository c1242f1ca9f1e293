//! Helpers on vectors.

use vstd::prelude::*;

verus! {

/// The items of `items` in reverse order.
pub fn reversed<T>(items: Vec<T>) -> (out: Vec<T>)
    ensures
        out@ == items@.reverse(),
{
    let mut items = items;
    let ghost all = items@;
    let mut out: Vec<T> = Vec::new();
    while items.len() > 0
        invariant
            items@.len() <= all.len(),
            items@ == all.subrange(0, items@.len() as int),
            out@.len() == all.len() - items@.len(),
            forall|j: int| 0 <= j < out@.len() ==> out@[j] == all[all.len() - 1 - j],
        decreases items.len(),
    {
        let item = items.pop().unwrap();
        out.push(item);
        assert(items@ =~= all.subrange(0, items@.len() as int));
    }
    assert(out@ =~= all.reverse());
    out
}

} // verus!
