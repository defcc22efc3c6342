//! A plain container for one value.
use vstd::prelude::*;

verus! {

/// A container for exactly one value of type `T`.
pub struct Cell<T> {
    value: T,
}

impl<T> View for Cell<T> {
    type V = T;

    closed spec fn view(&self) -> T {
        self.value
    }
}

impl<T> Cell<T> {
    /// Creates a new cell containing the given value.
    pub fn new(value: T) -> (r: Self)
        ensures
            r@ == value,
    {
        Cell { value }
    }

    /// Sets the contained value.
    pub fn set(&mut self, value: T)
        ensures
            final(self)@ == value,
    {
        self.value = value;
    }
}

impl<T: Copy> Cell<T> {
    /// Returns a copy of the contained value.
    pub fn get(&self) -> (r: T)
        ensures
            r == self@,
    {
        self.value
    }
}

impl<T: Default> Cell<T> {
    /// Takes the value out of the cell and leaves `T::default()` in its
    /// place.
    pub fn take(&mut self) -> (r: T)
        ensures
            r == old(self)@,
            call_ensures(T::default, (), final(self)@),
    {
        let mut value = T::default();
        core::mem::swap(&mut self.value, &mut value);
        value
    }
}

impl<T> Cell<Option<T>> {
    /// Returns true if the value of the cell is a `Some` value.
    pub fn has_some(&self) -> (r: bool)
        ensures
            r == (self@ is Some),
    {
        self.value.is_some()
    }

    /// Returns true if the value of the cell is a `None` value.
    pub fn has_none(&self) -> (r: bool)
        ensures
            r == (self@ is None),
    {
        self.value.is_none()
    }
}

impl<T: Default> Default for Cell<T> {
    fn default() -> (r: Self)
        ensures
            call_ensures(T::default, (), r@),
    {
        Cell { value: T::default() }
    }
}

} // verus!
