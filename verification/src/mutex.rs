//! A cell that can only be reached from inside a critical section.
use vstd::prelude::*;
use critical_section::CriticalSection;

verus! {

/// A cell holding one value of type `T`. Every access takes a
/// critical-section token, so no access can happen outside a critical
/// section. There is no locking beyond that token.
pub struct Mutex<T> {
    value: T,
}

impl<T> View for Mutex<T> {
    type V = T;

    closed spec fn view(&self) -> T {
        self.value
    }
}

impl<T> Mutex<T> {
    /// Creates a new cell containing the given value.
    pub fn new(value: T) -> (r: Self)
        ensures
            r@ == value,
    {
        Mutex { value }
    }

    /// Sets the contained value.
    pub fn set(&mut self, cs: CriticalSection, value: T)
        ensures
            final(self)@ == value,
    {
        let _ = cs;
        self.value = value;
    }
}

impl<T: Copy> Mutex<T> {
    /// Returns a copy of the contained value.
    pub fn get(&self, cs: CriticalSection) -> (r: T)
        ensures
            r == self@,
    {
        let _ = cs;
        self.value
    }
}

impl<T: Default> Mutex<T> {
    /// Takes the value out of the cell and leaves `T::default()` in its
    /// place.
    pub fn take(&mut self, cs: CriticalSection) -> (r: T)
        ensures
            r == old(self)@,
            call_ensures(T::default, (), final(self)@),
    {
        let _ = cs;
        let mut value = T::default();
        core::mem::swap(&mut self.value, &mut value);
        value
    }
}

impl<T> Mutex<Option<T>> {
    /// Returns true if the value of the cell is a `Some` value.
    pub fn has_some(&self, cs: CriticalSection) -> (r: bool)
        ensures
            r == (self@ is Some),
    {
        let _ = cs;
        self.value.is_some()
    }

    /// Returns true if the value of the cell is a `None` value.
    pub fn has_none(&self, cs: CriticalSection) -> (r: bool)
        ensures
            r == (self@ is None),
    {
        !self.has_some(cs)
    }
}

impl<T: Default> Default for Mutex<T> {
    fn default() -> (r: Self)
        ensures
            call_ensures(T::default, (), r@),
    {
        Mutex::new(T::default())
    }
}

} // verus!
