//! The envelope around every answer of the service.

use crate::pixiv::error::Error;
use vstd::prelude::*;

verus! {

/// The body of an answer as it arrives: the service sends an empty list in
/// place of a missing body.
#[derive(Debug)]
pub enum Body<T> {
    Empty,
    Value(T),
}

impl<T> Body<T> {
    /// The body, if there is one.
    pub fn into_option(self) -> (body: Option<T>)
        ensures
            body == match self {
                Body::Empty => None::<T>,
                Body::Value(value) => Some(value),
            },
    {
        match self {
            Body::Empty => None,
            Body::Value(value) => Some(value),
        }
    }
}

/// An answer of the service.
#[derive(Debug)]
pub struct Response<T> {
    pub error: bool,
    pub message: String,
    pub body: Option<T>,
}

impl<T> Response<T> {
    /// What an answer amounts to: the error flag wins over whatever the body
    /// holds; without the flag an empty body is a failure of its own.
    pub open spec fn outcome(self) -> Result<T, Error> {
        if self.error {
            Err(Error::Pixiv(self.message))
        } else {
            match self.body {
                None => Err(Error::NoData),
                Some(body) => Ok(body),
            }
        }
    }

    /// Unwraps the answer.
    pub fn into_result(self) -> (result: Result<T, Error>)
        ensures
            result == self.outcome(),
    {
        if self.error {
            Err(Error::Pixiv(self.message))
        } else {
            match self.body {
                None => Err(Error::NoData),
                Some(body) => Ok(body),
            }
        }
    }
}

} // verus!
