//! Recovery from poisoned locks: a thread that panics while holding a
//! lock poisons it, and every later `unwrap` on it would panic in turn.
//! `unwrap_or_recover` takes the guard either way.

use vstd::prelude::*;
use std::sync::PoisonError;

verus! {

/// std's `PoisonError`, the error of a lock whose holder panicked; it
/// is carried through opaque, with nothing known of its contents.
#[verifier::external_type_specification]
#[verifier::external_body]
#[verifier::reject_recursive_types(T)]
pub struct ExPoisonError<T>(PoisonError<T>);

/// Takes the guard out of a poison error (`PoisonError::into_inner`).
/// Nothing is stated of the guard: the error value is opaque here.
#[verifier::external_body]
fn poisoned_guard<G>(err: PoisonError<G>) -> G {
    err.into_inner()
}

/// Extension trait for recovering from poisoned locks instead of
/// panicking.
pub trait RecoverPoison<T>: Sized {
    fn unwrap_or_recover(self) -> T;
}

impl<G> RecoverPoison<G> for Result<G, PoisonError<G>> {
    /// The guard of a healthy lock, or the guard carried by the poison
    /// error of a poisoned one.
    fn unwrap_or_recover(self) -> (r: G)
        ensures
            self matches Ok(g) ==> r == g,
    {
        match self {
            Ok(guard) => guard,
            Err(poisoned) => poisoned_guard(poisoned),
        }
    }
}

} // verus!
