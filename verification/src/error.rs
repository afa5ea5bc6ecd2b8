//! The error that fallible operations report.

use vstd::prelude::*;

verus! {

/// A failure, with the text that explains it.
#[derive(Debug, PartialEq, Eq)]
pub struct Error {
    pub message: String,
}

impl View for Error {
    type V = Seq<char>;

    open spec fn view(&self) -> Seq<char> {
        self.message@
    }
}

impl Error {
    /// An error with the given text.
    pub fn new(message: String) -> (r: Error)
        ensures
            r@ == message@,
    {
        Error { message }
    }
}

/// The error with what caused it.
pub(crate) fn caused(e: Error, cause: &str) -> (r: Error)
    ensures
        r@ == e@ + ": "@ + cause@,
{
    let mut message = e.message;
    message.append(": ");
    message.append(cause);
    Error { message }
}

/// What a result holds.
pub open spec fn result_view<T: View>(r: Result<T, Error>) -> Result<T::V, Seq<char>> {
    match r {
        Ok(x) => Ok(x@),
        Err(e) => Err(e@),
    }
}

} // verus!
