//! Failures that a command reports to its caller.

use vstd::prelude::*;

verus! {

/// What can go wrong while a command prepares its work.
#[derive(Debug)]
pub enum Error {
    /// The text names none of the known clusters; the text is kept.
    WrongNetwork(String),
    /// One of the values handed to a command could not be read; `field_name` says which.
    DeserializationFailed { error: crate::serialization::Error, field_name: &'static str },
    /// A revealed nonce does not open the commitment that its sender published.
    InvalidCommitment,
    /// The two lists that a step compares do not pair up.
    MismatchMessages,
}

} // verus!
