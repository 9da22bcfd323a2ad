//! A hand-rolled box: the smallest owning wrapper around a value.

use vstd::prelude::*;

verus! {

/// Owns one value of any type.
#[derive(Debug)]
pub struct CustomBox<T>(pub T);

impl<T> CustomBox<T> {
    /// Wraps a value.
    pub fn new(x: T) -> (r: Self)
        ensures
            r.0 == x,
    {
        Self(x)
    }

    /// Borrows the wrapped value, as dereferencing the box would.
    pub fn get(&self) -> (r: &T)
        ensures
            *r == self.0,
    {
        &self.0
    }

    /// Hands the wrapped value back.
    pub fn into_inner(self) -> (r: T)
        ensures
            r == self.0,
    {
        self.0
    }
}

} // verus!
