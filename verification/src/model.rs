//! Views of containers whose elements have views of their own.

use vstd::prelude::*;

verus! {

/// The view of what an `Option` holds.
pub open spec fn opt_view<T: View>(value: Option<T>) -> Option<T::V> {
    match value {
        Some(inner) => Some(inner@),
        None => None,
    }
}

/// The views of the elements of a sequence.
pub open spec fn seq_view<T: View>(values: Seq<T>) -> Seq<T::V> {
    Seq::new(values.len(), |i: int| values[i]@)
}

} // verus!
