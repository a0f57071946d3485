//! Typed errors for every fallible operation of the extension layer.
//!
//! All core operations surface failures to their direct caller as one of
//! these variants; nothing is retried or swallowed inside the core.

use vstd::prelude::*;

verus! {

/// Error kind with a human-readable message for each failure class.
pub enum Error {
    /// A custom function handler failed.
    Function(String),
    /// An event listener failed.
    Event(String),
    /// A cache operation failed.
    Cache(String),
    /// The surrounding server machinery failed.
    Server(String),
    /// Configuration was invalid.
    Config(String),
    /// A named item was absent.
    NotFound(String),
    /// Encoding or decoding of a value failed.
    Serialization(String),
    /// An input/output failure reported by a collaborator.
    Io(String),
    /// Any failure that fits no other kind.
    Other(String),
}

impl Error {
    /// The message carried by this error, whatever its kind.
    pub open spec fn spec_message(&self) -> Seq<char> {
        match self {
            Error::Function(m) => m@,
            Error::Event(m) => m@,
            Error::Cache(m) => m@,
            Error::Server(m) => m@,
            Error::Config(m) => m@,
            Error::NotFound(m) => m@,
            Error::Serialization(m) => m@,
            Error::Io(m) => m@,
            Error::Other(m) => m@,
        }
    }

    /// Returns the message carried by this error.
    pub fn message(&self) -> (r: String)
        ensures
            r@ == self.spec_message(),
    {
        match self {
            Error::Function(m) => m.clone(),
            Error::Event(m) => m.clone(),
            Error::Cache(m) => m.clone(),
            Error::Server(m) => m.clone(),
            Error::Config(m) => m.clone(),
            Error::NotFound(m) => m.clone(),
            Error::Serialization(m) => m.clone(),
            Error::Io(m) => m.clone(),
            Error::Other(m) => m.clone(),
        }
    }
}

impl Clone for Error {
    /// Clones the error, preserving kind and message.
    fn clone(&self) -> (r: Self)
        ensures
            r == *self,
    {
        match self {
            Error::Function(m) => Error::Function(m.clone()),
            Error::Event(m) => Error::Event(m.clone()),
            Error::Cache(m) => Error::Cache(m.clone()),
            Error::Server(m) => Error::Server(m.clone()),
            Error::Config(m) => Error::Config(m.clone()),
            Error::NotFound(m) => Error::NotFound(m.clone()),
            Error::Serialization(m) => Error::Serialization(m.clone()),
            Error::Io(m) => Error::Io(m.clone()),
            Error::Other(m) => Error::Other(m.clone()),
        }
    }
}

} // verus!
