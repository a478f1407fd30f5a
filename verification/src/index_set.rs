//! Sets of row indices, held in a `BTreeSet<usize>`, and the view of such a
//! set as a set of integers.

use std::collections::BTreeSet;

use vstd::prelude::*;

verus! {

/// The indices of `s` as mathematical integers.
pub open spec fn int_set(s: Set<usize>) -> Set<int> {
    Set::new(|i: int| 0 <= i <= usize::MAX && s.contains(i as usize))
}

/// Whether `i` is in `s`.
pub(crate) fn set_has(s: &BTreeSet<usize>, i: usize) -> (r: bool)
    ensures
        r == s@.contains(i),
{
    broadcast use {vstd::std_specs::btree::group_btree_axioms, vstd::laws_cmp::group_laws_cmp};

    s.contains(&i)
}

/// Adds `i` to `s`.
pub(crate) fn set_add(s: &mut BTreeSet<usize>, i: usize)
    ensures
        final(s)@ == old(s)@.insert(i),
{
    broadcast use {vstd::std_specs::btree::group_btree_axioms, vstd::laws_cmp::group_laws_cmp};

    s.insert(i);
}

/// Removes `i` from `s`.
pub(crate) fn set_drop(s: &mut BTreeSet<usize>, i: usize)
    ensures
        final(s)@ == old(s)@.remove(i),
{
    broadcast use {vstd::std_specs::btree::group_btree_axioms, vstd::laws_cmp::group_laws_cmp};

    s.remove(&i);
}

} // verus!
