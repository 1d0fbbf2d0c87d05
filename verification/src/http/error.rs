//! Error type for body and handler operations: a human-readable message.

use vstd::prelude::*;
use crate::text::to_owned_str;

verus! {

/// Error of a WarpGrid async operation; wraps a message describing the
/// failure.
#[derive(Debug)]
pub struct Error {
    message: String,
}

impl Error {
    /// The message, as characters.
    pub closed spec fn text(&self) -> Seq<char> {
        self.message@
    }

    /// An error with the given message.
    pub fn new(message: &str) -> (res: Self)
        ensures
            res.text() == message@,
    {
        Error { message: to_owned_str(message) }
    }

    /// The message.
    pub fn message(&self) -> (res: &str)
        ensures
            res@ == self.text(),
    {
        self.message.as_str()
    }

    /// The message; what displaying the error shows.
    pub fn to_string(&self) -> (res: String)
        ensures
            res@ == self.text(),
    {
        self.message.clone()
    }
}

impl Clone for Error {
    fn clone(&self) -> (res: Self)
        ensures
            res.text() == self.text(),
    {
        Error { message: self.message.clone() }
    }
}

impl From<String> for Error {
    fn from(s: String) -> (res: Self)
        ensures
            res.text() == s@,
    {
        Error { message: s }
    }
}

impl vstd::std_specs::convert::FromSpecImpl<String> for Error {
    open spec fn obeys_from_spec() -> bool {
        true
    }

    closed spec fn from_spec(v: String) -> Self {
        Error { message: v }
    }
}

impl<'a> From<&'a str> for Error {
    fn from(s: &'a str) -> (res: Self)
        ensures
            res.text() == s@,
    {
        Error::new(s)
    }
}

impl<'a> vstd::std_specs::convert::FromSpecImpl<&'a str> for Error {
    open spec fn obeys_from_spec() -> bool {
        false
    }

    closed spec fn from_spec(v: &'a str) -> Self {
        arbitrary()
    }
}

} // verus!
