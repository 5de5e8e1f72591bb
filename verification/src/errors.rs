//! The failure taxonomy: every rejection is synchronous and leaves the
//! ledger exactly as it was.

use vstd::prelude::*;

verus! {

/// The input-shape and state violations a request is refused with before
/// anything is written.
#[derive(Clone, Copy, Debug, PartialEq, Eq, Structural)]
pub enum GovError {
    NotEnoughOptions,
    InvalidTimeRange,
    PollNotActive,
    InvalidChoice,
    InvalidQuestionLen,
    InvalidOptionLen,
    TooManyOptions,
}

/// Everything an operation can fail with: a shape or state violation, a
/// missing poll, or the store's refusal to create a record at an occupied
/// address — the latter signalling both "this poll already exists" and "this
/// voter already voted", told apart only by which operation was invoked.
#[derive(Clone, Copy, Debug, PartialEq, Eq, Structural)]
pub enum OpError {
    Gov(GovError),
    AlreadyExists,
    PollNotFound,
}

} // verus!
