//! Names under which the node types of the hub are known in configurations.

use vstd::prelude::*;

verus! {

/// The given names, as owned strings, in order.
pub fn aliases(a: &[&str]) -> (r: Vec<String>)
    ensures
        r@.len() == a@.len(),
        forall|i: int| 0 <= i < a@.len() ==> #[trigger] r@[i]@ == a@[i]@,
{
    let mut r: Vec<String> = Vec::new();
    let mut i: usize = 0;
    while i < a.len()
        invariant
            i <= a@.len(),
            r@.len() == i,
            forall|j: int| 0 <= j < i ==> #[trigger] r@[j]@ == a@[j]@,
        decreases a.len() - i,
    {
        r.push(a[i].to_owned());
        i = i + 1;
    }
    r
}

} // verus!
