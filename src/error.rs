//! The errors a calendar request can end with.
use vstd::prelude::*;

verus! {

/// Why a calendar could not be produced.
#[derive(Debug)]
pub enum Error {
    /// The booking system could not be reached or did not answer.
    Unreachable(String),
}

impl Error {
    /// The error in words: `Unreachable: <cause>`.
    pub fn message(&self) -> (r: String)
        ensures
            match self {
                Error::Unreachable(cause) => r@ == "Unreachable: "@ + cause@,
            },
    {
        match self {
            Error::Unreachable(cause) => {
                let mut text = String::from_str("Unreachable: ");
                text.append(cause.as_str());
                text
            },
        }
    }
}

} // verus!
