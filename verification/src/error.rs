//! The error type that the backend's fallible steps return.

use vstd::prelude::*;

verus! {

/// A failure carrying the message that the worker reports for it.
#[derive(Debug)]
pub struct Error {
    pub message: String,
}

impl View for Error {
    type V = Seq<char>;

    open spec fn view(&self) -> Seq<char> {
        self.message@
    }
}

impl Error {
    /// An error with the given message.
    pub fn new(message: String) -> (res: Self)
        ensures
            res@ == message@,
    {
        Error { message }
    }
}

} // verus!
