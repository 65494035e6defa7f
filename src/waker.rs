//! The suspension handle of the surrounding scheduler, `std::task::Waker`.
use std::task::Waker;
use vstd::prelude::*;

verus! {

#[verifier::external_type_specification]
#[verifier::external_body]
pub struct ExWaker(Waker);

/// Relies on `Waker::will_wake`, a best-effort test that two handles wake the
/// same task; nothing is known of its answer.
pub assume_specification[ Waker::will_wake ](w: &Waker, other: &Waker) -> bool;

/// Relies on `Waker::wake_by_ref`, which marks the task eligible to run again.
pub assume_specification[ Waker::wake_by_ref ](w: &Waker);

/// Relies on `Waker`'s `Clone`, which yields a handle to the same task.
pub assume_specification[ <Waker as Clone>::clone ](w: &Waker) -> Waker;

} // verus!
