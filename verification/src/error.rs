//! The error type of the library.

use vstd::prelude::*;
use vstd::string::*;

verus! {

/// An error of symbol construction or drawing, carrying its message.
#[derive(Debug)]
pub struct QRError {
    message: String,
}

impl View for QRError {
    type V = Seq<char>;

    closed spec fn view(&self) -> Seq<char> {
        self.message@
    }
}

impl QRError {
    /// An error with the given message.
    pub fn new(message: &str) -> (error: QRError)
        ensures
            error@ == message@,
    {
        QRError { message: String::from_str(message) }
    }

    /// The message of this error.
    pub fn message(&self) -> (text: &str)
        ensures
            text@ == self@,
    {
        self.message.as_str()
    }

    /// The message of this error as an owned string.
    pub fn to_string(&self) -> (text: String)
        ensures
            text@ == self@,
    {
        self.message.clone()
    }
}

} // verus!
