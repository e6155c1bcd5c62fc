//! The application-level error set that a service implementation may raise.
//!
//! Both variants cross the process boundary as plain descriptive text inside
//! the failure arm of the transmitted result wrapper; no structured error is
//! reconstructed on the client side.

use vstd::prelude::*;

verus! {

/// An error a service handler can signal. It never crosses the stream as a
/// value: the dispatch step turns it into the failure message given by
/// [`Error::message`].
#[derive(Debug, PartialEq)]
pub enum Error {
    /// A domain computation produced a result that is not mathematically
    /// valid (for example a division by zero).
    MathError,
    /// Any other failure, carrying free-form descriptive text.
    Generic(String),
}

/// The descriptive text of an error, as it is sent over the stream.
pub open spec fn spec_message(e: Error) -> Seq<char> {
    match e {
        Error::MathError => "The result is mathematically invalid"@,
        Error::Generic(s) => s@,
    }
}

impl Error {
    /// The human-readable message carried to the client for this error.
    pub fn message(&self) -> (r: String)
        ensures
            r@ == spec_message(*self),
    {
        match self {
            Error::MathError => "The result is mathematically invalid".to_owned(),
            Error::Generic(s) => s.clone(),
        }
    }
}

} // verus!
