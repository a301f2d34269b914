//! The status line of a response.

use vstd::prelude::*;

verus! {

/// The statuses this server answers with.
#[derive(Debug, Clone, Copy, PartialEq, Eq, Structural)]
pub enum HttpStatus {
    Okay,
    NotFound,
    InternalServerError,
}

impl HttpStatus {
    /// The numeric status code.
    pub open spec fn code(self) -> u16 {
        match self {
            HttpStatus::Okay => 200,
            HttpStatus::NotFound => 404,
            HttpStatus::InternalServerError => 500,
        }
    }

    /// The reason phrase that follows the code on the status line.
    pub open spec fn reason(self) -> Seq<char> {
        match self {
            HttpStatus::Okay => "OK"@,
            HttpStatus::NotFound => "NOT FOUND"@,
            HttpStatus::InternalServerError => "INTERNAL SERVER ERROR"@,
        }
    }

    /// The numeric status code: 200, 404 or 500.
    pub fn status_code(&self) -> (c: u16)
        ensures
            c == self.code(),
    {
        match self {
            HttpStatus::Okay => 200,
            HttpStatus::NotFound => 404,
            HttpStatus::InternalServerError => 500,
        }
    }

    /// The reason phrase, in capitals.
    pub fn status_info(&self) -> (s: &'static str)
        ensures
            s@ == self.reason(),
    {
        match self {
            HttpStatus::Okay => "OK",
            HttpStatus::NotFound => "NOT FOUND",
            HttpStatus::InternalServerError => "INTERNAL SERVER ERROR",
        }
    }
}

} // verus!
