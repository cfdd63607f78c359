//! What can go wrong while buffering.

use vstd::prelude::*;

verus! {

/// `std::io::Error`, carried from the driver to the consumer and never
/// looked into.
#[verifier::external_type_specification]
#[verifier::external_body]
pub struct ExIoError(std::io::Error);

/// A failure of the buffer itself, as opposed to one of the source.
#[derive(Debug)]
pub enum BufferingError {
    /// Taking the chunk would have pushed the total past the size limit.
    Overflow,
    /// The filesystem refused to create, write, seek or read.
    Io(std::io::Error),
}

impl From<std::io::Error> for BufferingError {
    fn from(e: std::io::Error) -> (r: Self) {
        BufferingError::Io(e)
    }
}

impl vstd::std_specs::convert::FromSpecImpl<std::io::Error> for BufferingError {
    open spec fn obeys_from_spec() -> bool {
        true
    }

    open spec fn from_spec(e: std::io::Error) -> Self {
        BufferingError::Io(e)
    }
}

/// What a production step can yield in place of a chunk.
#[derive(Debug)]
pub enum StreamError<E> {
    /// The source failed; its error is handed on untouched.
    Source(E),
    /// The buffer failed.
    Buffering(BufferingError),
}

} // verus!
