//! Lists.

use vstd::prelude::*;

verus! {

/// The items in reverse order.
pub fn reversed<T>(items: Vec<T>) -> (r: Vec<T>)
    ensures
        r@ == items@.reverse(),
{
    let ghost all = items@;
    let mut items = items;
    let mut out: Vec<T> = Vec::new();
    while items.len() > 0
        invariant
            items.len() <= all.len(),
            items@ == all.take(items.len() as int),
            out.len() == all.len() - items.len(),
            forall|j: int| 0 <= j < out.len() ==> #[trigger] out@[j] == all[all.len() - 1 - j],
        decreases items.len(),
    {
        if let Some(item) = items.pop() {
            out.push(item);
        }
    }
    assert(out@ == all.reverse());
    out
}

} // verus!
