//! Non-owning references to arena slots.
use vstd::prelude::*;

verus! {

/// A non-owning reference to a `T` that lives in an arena: the number of its
/// slot. It stays meaningful for as long as the arena keeps the slot, and it
/// is `Copy` whatever `T` is.
pub struct NonNull<T> {
    slot: usize,
    marker: core::marker::PhantomData<T>,
}

impl<T> Clone for NonNull<T> {
    fn clone(&self) -> (r: Self)
        ensures
            r == *self,
    {
        *self
    }
}

impl<T> Copy for NonNull<T> {

}

impl<T> NonNull<T> {
    /// The slot number that this reference stands for.
    pub closed spec fn addr(self) -> usize {
        self.slot
    }

    /// The reference to slot `slot`.
    pub closed spec fn at(slot: usize) -> Self {
        NonNull { slot, marker: core::marker::PhantomData }
    }

    /// The reference to slot `slot`.
    pub fn new(slot: usize) -> (r: Self)
        ensures
            r == Self::at(slot),
    {
        NonNull { slot, marker: core::marker::PhantomData }
    }

    /// Returns a shared reference to the value in `arena` that `self` refers
    /// to. The slot must exist in `arena`.
    pub fn as_ref<'a>(&self, arena: &'a Vec<T>) -> (r: &'a T)
        requires
            self.addr() < arena@.len(),
        ensures
            *r == arena@[self.addr() as int],
    {
        &arena[self.slot]
    }

    /// The slot number, for comparing two references by identity.
    pub fn as_ptr(self) -> (r: usize)
        ensures
            r == self.addr(),
    {
        self.slot
    }

    /// The reference to a slot stands for that slot.
    pub broadcast proof fn lemma_at_addr(slot: usize)
        ensures
            (#[trigger] Self::at(slot)).addr() == slot,
    {
    }

    /// A reference is the reference to the slot it stands for, so two
    /// references to one slot are the same reference.
    pub broadcast proof fn lemma_addr_at(self)
        ensures
            Self::at(#[trigger] self.addr()) == self,
    {
    }
}

/// What relates a reference and its slot number.
pub broadcast group group_non_null {
    NonNull::lemma_at_addr,
    NonNull::lemma_addr_at,
}

} // verus!
