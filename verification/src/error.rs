//! Stream errors.
//!
//! Each variant corresponds to one failure kind of the pipeline: crypto
//! failures, wire-encoding failures, malformed headers, a missing parent
//! snapshot (recoverable at the reader level), transport failures, and
//! operations attempted in the wrong user state.

use vstd::prelude::*;
use crate::address::Address;

verus! {

#[verifier::external_type_specification]
#[verifier::external_body]
pub struct ExFromUtf8Error(std::string::FromUtf8Error);

pub type Result<T> = core::result::Result<T, Error>;

/// Error type of the stream engine.
#[derive(Clone, Debug, PartialEq)]
pub enum Error {
    /// A signature or integrity check failed.
    Crypto(&'static str),
    /// A wire field could not be encoded or decoded; the second field names
    /// the encoding involved.
    Encoding(&'static str, &'static str),
    /// A field had the wrong length: subject, expected, actual.
    InvalidSize(&'static str, usize, u64),
    /// A header declared something this user cannot accept.
    Malformed(&'static str, &'static str),
    /// A signature could not be produced or checked.
    Signature(&'static str, &'static str),
    /// A transport-level failure for the given address.
    AddressError(&'static str, Address),
    /// A message was not found where the transport was expected to hold it.
    MessageMissing(Address, &'static str),
    /// An operation was called in a user state that does not allow it.
    State(&'static str),
}

impl Error {
    /// A UTF-8 decoding failure, folded into the encoding kind.
    pub fn utf(m: &'static str, _error: std::string::FromUtf8Error) -> (r: Error)
        ensures
            r == Error::Encoding(m, "utf8"),
    {
        Error::Encoding(m, "utf8")
    }
}

} // verus!
