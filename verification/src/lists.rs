//! Searching lists of numbers.

use vstd::prelude::*;

verus! {

/// Whether `list` holds `item`.
pub(crate) fn has_i32(list: &[i32], item: i32) -> (r: bool)
    ensures
        r == list@.contains(item),
{
    let mut i: usize = 0;
    while i < list.len()
        invariant
            i <= list.len(),
            forall|j: int| 0 <= j < i ==> list@[j] != item,
        decreases list.len() - i,
    {
        if list[i] == item {
            assert(list@[i as int] == item);
            return true;
        }
        i += 1;
    }
    false
}

/// A number is found in a list exactly if it stands somewhere in it.
pub(crate) proof fn law_number_is_found(list: &[i32], item: i32, r: bool)
    requires
        call_ensures(has_i32, (list, item), r),
    ensures
        r <==> exists|i: int| 0 <= i < list@.len() && #[trigger] list@[i] == item,
{
    if r {
        let i = choose|i: int| 0 <= i < list@.len() && list@[i] == item;
        assert(list@[i] == item);
    }
}

} // verus!
