//! The broker's error taxonomy and the authentication outcome.
//!
//! A failed secret check is a first-class result, not an error: callers must
//! be able to tell "you are not authorized" apart from "your input was
//! malformed".

use vstd::prelude::*;

verus! {

/// Why an operation was refused outright.
#[derive(Clone, Copy, Debug, PartialEq, Eq, Structural)]
pub enum BrokerError {
    /// A required field was missing or malformed.
    InvalidInput,
    /// A client of this name already joined the session.
    NameAlreadyTaken,
    /// The random name generator could not find an unused session name
    /// within its retry budget.
    NameSpaceExhausted,
}

/// The result of a secret-gated operation: either the work was done, or the
/// supplied secret was wrong or missing.
#[derive(Debug)]
pub enum AuthOutcome<T> {
    /// The secret matched; the operation ran and produced this value.
    Granted(T),
    /// The secret was wrong or no secret is on record.
    Unauthenticated,
}

} // verus!
