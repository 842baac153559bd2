//! A copy-out cell: stores one value, reads it by copy and overwrites it whole.
use vstd::prelude::*;

verus! {

/// A single stored value with copy-out reads and whole-value writes.
///
/// Writing takes `&mut self`, so the compiler itself rules out a write that
/// races with any other access: no aliasing is ever exposed.
pub struct MyCell<T> {
    value: T,
}

impl<T> View for MyCell<T> {
    type V = T;

    /// The value currently stored.
    closed spec fn view(&self) -> T {
        self.value
    }
}

impl<T> MyCell<T> {
    /// The cell that `new(value)` builds.
    pub closed spec fn spec_new(value: T) -> Self {
        MyCell { value }
    }

    /// The cell after `set(value)`.
    pub closed spec fn spec_set(self, value: T) -> Self {
        MyCell { value }
    }

    pub fn new(value: T) -> (r: Self)
        ensures
            r == Self::spec_new(value),
            r@ == value,
    {
        Self { value }
    }

    /// Returns a copy of the stored value.
    pub fn get(&self) -> (r: T) where T: Copy
        ensures
            r == self@,
    {
        self.value
    }

    /// Overwrites the stored value.
    pub fn set(&mut self, value: T)
        ensures
            *final(self) == old(self).spec_set(value),
            final(self)@ == value,
    {
        self.value = value;
    }
}

/// A fresh cell reads back the value it was built with, and any cell reads
/// back the last value written to it.
pub proof fn lemma_get_after_new_and_set<T>(v: T, c: MyCell<T>, w: T)
    ensures
        MyCell::spec_new(v)@ == v,
        c.spec_set(w)@ == w,
{
}

} // verus!
