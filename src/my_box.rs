//! A transparent single-value wrapper that forwards access to what it holds.
use vstd::prelude::*;

verus! {

/// Owns one value and dereferences to it.
pub struct MyBox<T> {
    value: T,
}

impl<T> View for MyBox<T> {
    type V = T;

    /// The wrapped value.
    closed spec fn view(&self) -> T {
        self.value
    }
}

impl<T> MyBox<T> {
    pub fn new(value: T) -> (r: Self)
        ensures
            r@ == value,
    {
        Self { value }
    }
}

impl<T> core::ops::Deref for MyBox<T> {
    type Target = T;

    fn deref(&self) -> (r: &T)
        ensures
            *r == self@,
    {
        &self.value
    }
}

} // verus!
