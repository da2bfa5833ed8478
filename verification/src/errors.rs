use vstd::prelude::*;

verus! {

/// Failure kinds of one outbound-fetch attempt during resolution.
#[derive(Clone, Copy, Debug, PartialEq, Eq, Structural)]
pub enum FetchError {
    /// The transport failed before a payload was obtained.
    NetworkError,
    /// The remote server answered that the object does not exist.
    NotFound,
    /// The payload was obtained but is malformed.
    ParseError,
    /// The per-activity fetch allowance ran out before the chain resolved.
    BudgetExceeded,
}

/// Failure kinds of processing one delivered activity.
#[derive(Clone, Copy, Debug, PartialEq, Eq, Structural)]
pub enum ReceiveError {
    /// The actor's authority does not match an object it claims to affect.
    DomainMismatch,
    /// Resolution of a referenced remote object failed.
    Fetch(FetchError),
    /// The activity references an object that is not known locally.
    ObjectNotFound,
    /// The activity's kind is not one this pipeline handles; the delivery is
    /// acknowledged and dropped without effect.
    UnsupportedActivity,
}

/// Failure kinds of a read against a local store.
#[derive(Clone, Copy, Debug, PartialEq, Eq, Structural)]
pub enum DbError {
    /// No row matched the query.
    NotFound,
}

/// Failure kinds of the login and password subsystem.
#[derive(Clone, Copy, Debug, PartialEq, Eq, Structural)]
pub enum AuthError {
    /// The presented session token is missing, unparsable or revoked.
    NotLoggedIn,
    /// The proposed password is outside the accepted length bounds.
    InvalidPassword,
    /// The proposed password and its confirmation differ.
    PasswordsDoNotMatch,
    /// The presented current password does not match the stored one.
    IncorrectLogin,
    /// Hashing the new password failed.
    HashingFailure,
}

} // verus!
