//! Failures that the service itself reports.

use vstd::prelude::*;
use vstd::string::StringExecFns;

verus! {

/// Why an answer of the service holds no usable data.
#[derive(Debug)]
pub enum Error {
    /// The service flagged the answer as an error and gave this message.
    Pixiv(String),
    /// The answer was no error, but its body was empty.
    NoData,
}

impl Error {
    /// The text shown for the error.
    pub open spec fn message(&self) -> Seq<char> {
        match self {
            Error::Pixiv(message) => message@,
            Error::NoData => "response has no data"@,
        }
    }

    /// The text shown for the error: the service's own message, or a fixed
    /// sentence where the body was empty.
    pub fn to_string(&self) -> (s: String)
        ensures
            s@ == self.message(),
    {
        match self {
            Error::Pixiv(message) => message.clone(),
            Error::NoData => String::from_str("response has no data"),
        }
    }
}

} // verus!
