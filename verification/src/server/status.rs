//! HTTP status codes the server answers with.

use vstd::prelude::*;

verus! {

/// The status codes the handlers use (`Success` is 200 OK).
#[derive(Debug, PartialEq, Eq, Structural, Clone, Copy)]
pub enum HttpStatus {
    Success,
    Created,
    BadRequest,
    Unauthorized,
    Conflict,
    InternalServerError,
}

impl HttpStatus {
    /// The numeric code of a status.
    pub open spec fn code_spec(self) -> u16 {
        match self {
            HttpStatus::Success => 200,
            HttpStatus::Created => 201,
            HttpStatus::BadRequest => 400,
            HttpStatus::Unauthorized => 401,
            HttpStatus::Conflict => 409,
            HttpStatus::InternalServerError => 500,
        }
    }

    /// The numeric code of a status.
    pub fn code(&self) -> (c: u16)
        ensures
            c == self.code_spec(),
    {
        match self {
            HttpStatus::Success => 200,
            HttpStatus::Created => 201,
            HttpStatus::BadRequest => 400,
            HttpStatus::Unauthorized => 401,
            HttpStatus::Conflict => 409,
            HttpStatus::InternalServerError => 500,
        }
    }
}

} // verus!
