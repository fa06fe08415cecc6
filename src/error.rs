//! Errors raised while building or reading a [`Key`](crate::Key).
use vstd::prelude::*;

verus! {

/// Errors that can occur while encoding a value into a key or decoding a value
/// from one.
#[derive(Debug, Clone, PartialEq, Eq)]
pub enum Error {
    /// The key does not have the shape that was asked for; names what was
    /// expected.
    Unexpected(&'static str),
    /// The type cannot be held in a key under the active float policy.
    UnsupportedType(&'static str),
    /// An enum variant was found but its payload has another shape.
    UnexpectedVariant(&'static str),
    /// A message from the code that walks the value.
    Custom(String),
    /// A map value was given or asked for with no key before it.
    MissingValue,
    /// A sequence did not hold exactly as many elements as were read.
    InvalidLength,
}

impl Error {
    /// An error that carries a message of its own.
    pub fn custom(msg: String) -> (r: Error)
        ensures
            r == Error::Custom(msg),
    {
        Error::Custom(msg)
    }
}

} // verus!
