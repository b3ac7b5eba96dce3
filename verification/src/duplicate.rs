//! Copies that keep the view.

use crate::scalar::Float64;
use vstd::prelude::*;

verus! {

/// A value that can be copied so that the copy has the same view.
pub trait Duplicate: View + Sized {
    /// A copy of `self`.
    fn duplicate(&self) -> (r: Self)
        ensures
            r@ == self@,
    ;
}

impl Duplicate for Float64 {
    fn duplicate(&self) -> (r: Float64) {
        *self
    }
}

impl Duplicate for String {
    fn duplicate(&self) -> (r: String) {
        self.clone()
    }
}

/// The views of a list of values, in the order of the list.
pub open spec fn views<T: View>(values: Seq<T>) -> Seq<T::V> {
    values.map_values(|value: T| value@)
}

} // verus!
