//! Entering a critical section.
//!
//! A callback that runs inside a critical section cannot borrow the caller's
//! state mutably. An operation that changes state therefore moves the state
//! into the callback and takes the new state back as part of the result;
//! `replace` is what moves it out of its place.
use vstd::prelude::*;
use critical_section::CriticalSection;

verus! {

/// The token that proves that its holder is inside a critical section. The
/// library carries it to the cells it unlocks and never looks inside.
#[verifier::external_type_specification]
#[verifier::external_body]
pub struct ExCriticalSection<'cs>(critical_section::CriticalSection<'cs>);

/// Runs `f` inside a critical section and returns what `f` returns.
///
/// This is `critical_section::with`. It is believed, not proved, that `with`
/// calls `f` once, with a token, and returns the result of that call.
#[verifier::external_body]
pub fn free<F, R>(f: F) -> (r: R) where F: FnOnce(CriticalSection) -> R
    requires
        forall|cs: CriticalSection| call_requires(f, (cs,)),
    ensures
        exists|cs: CriticalSection| call_ensures(f, (cs,), r),
{
    critical_section::with(f)
}

/// Puts `value` in `place` and returns what was there, so that it can be
/// moved into a callback.
pub(crate) fn replace<T>(place: &mut T, value: T) -> (r: T)
    ensures
        r == *old(place),
        *final(place) == value,
{
    let mut value = value;
    core::mem::swap(place, &mut value);
    value
}

} // verus!
