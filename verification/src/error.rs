//! The errors the service answers requests with.

use vstd::prelude::*;

verus! {

/// Why a request was refused.
#[derive(Clone, Copy, Debug, PartialEq, Eq)]
pub enum AppError {
    /// A form field is missing its content or cannot be read.
    BadRequest,
    /// The credentials do not match, or no session token could be issued.
    Unauthorized,
    /// The requested record does not exist.
    NotFound,
    /// The system clock lies outside the range of dates a session token can carry.
    ClockOutOfRange,
}

} // verus!
