//! Joining columns: pairing same-index slots and keeping the indices where
//! every requested column has a present value.

use vstd::prelude::*;

verus! {

/// Whether entity `i` has a present value in both columns.
pub open spec fn present_in_both<C>(a: Seq<Option<C>>, b: Seq<Option<C>>, i: int) -> bool {
    0 <= i < a.len() && i < b.len() && a[i] is Some && b[i] is Some
}

/// The entities that have both components: exactly the indices at which
/// both columns hold a present value, in increasing order.
///
/// Callers then look the paired values up in either column by index; the
/// columns themselves are untouched, so any number of joins may overlap.
pub fn join_indices<C>(a: &Vec<Option<C>>, b: &Vec<Option<C>>) -> (r: Vec<usize>)
    ensures
        forall|k: int| 0 <= k < r@.len() ==> present_in_both(a@, b@, r@[k] as int),
        forall|i: int| present_in_both(a@, b@, i) ==> r@.contains(i as usize),
        forall|k1: int, k2: int| 0 <= k1 < k2 < r@.len() ==> r@[k1] < r@[k2],
{
    let mut r: Vec<usize> = Vec::new();
    let n = if a.len() < b.len() {
        a.len()
    } else {
        b.len()
    };
    let mut i: usize = 0;
    while i < n
        invariant
            n <= a@.len(),
            n <= b@.len(),
            n == a@.len() || n == b@.len(),
            i <= n,
            forall|k: int| 0 <= k < r@.len() ==> present_in_both(a@, b@, r@[k] as int),
            forall|k: int| 0 <= k < r@.len() ==> r@[k] < i,
            forall|j: int| 0 <= j < i && present_in_both(a@, b@, j) ==> r@.contains(j as usize),
            forall|k1: int, k2: int| 0 <= k1 < k2 < r@.len() ==> r@[k1] < r@[k2],
        decreases n - i,
    {
        if a[i].is_some() && b[i].is_some() {
            let ghost prev = r@;
            r.push(i);
            proof {
                assert forall|j: int|
                    0 <= j < i + 1 && present_in_both(a@, b@, j) implies r@.contains(j as usize) by {
                    if j < i {
                        let k = choose|k: int| 0 <= k < prev.len() && prev[k] == j as usize;
                        assert(r@[k] == j as usize);
                    } else {
                        assert(r@[r@.len() - 1] == j as usize);
                    }
                }
            }
        }
        i += 1;
    }
    proof {
        assert forall|j: int| present_in_both(a@, b@, j) implies r@.contains(j as usize) by {
            assert(j < n);
        }
    }
    r
}

} // verus!
