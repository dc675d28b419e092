//! Small helpers.

use vstd::prelude::*;

verus! {

/// Anything that can be turned into a list of `T`.
pub trait IntoVec<T>: Sized {
    fn into_vec(self) -> Vec<T>;
}

impl<T> IntoVec<T> for Vec<T> {
    /// A list is already a list.
    fn into_vec(self) -> (v: Vec<T>)
        ensures
            v@ == self@,
    {
        self
    }
}

} // verus!
