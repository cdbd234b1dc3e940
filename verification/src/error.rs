//! The plain error of the library: a message.

use vstd::prelude::*;
use vstd::string::StringExecFns;

verus! {

/// An error with a message.
#[derive(Debug, PartialEq, Eq)]
pub struct Error {
    pub message: String,
}

impl View for Error {
    type V = Seq<char>;

    open spec fn view(&self) -> Seq<char> {
        self.message@
    }
}

impl Clone for Error {
    fn clone(&self) -> (r: Error)
        ensures
            r@ == self@,
    {
        Error { message: self.message.clone() }
    }
}

impl Error {
    /// The error with the given message.
    pub fn new(m: &str) -> (r: Error)
        ensures
            r@ == m@,
    {
        Error { message: String::from_str(m) }
    }

    /// The message of the error.
    pub fn to_string(&self) -> (r: String)
        ensures
            r@ == self@,
    {
        self.message.clone()
    }
}

/// The sum of two sizes, or the greatest size where the sum would pass it.
pub fn add(left: usize, right: usize) -> (r: usize)
    ensures
        r == (if left + right > usize::MAX {
            usize::MAX as int
        } else {
            left + right
        }),
{
    if left > usize::MAX - right {
        usize::MAX
    } else {
        left + right
    }
}

} // verus!
