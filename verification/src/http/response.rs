//! Responses and their wire form.

use crate::http::decimal::{decimal, to_decimal};
use crate::http::status::HttpStatus;
use vstd::prelude::*;
use vstd::string::StringExecFns;
use vstd::utf8::encode_utf8;

verus! {

/// The number of bytes that `text` takes when encoded as UTF-8.
pub open spec fn byte_len(text: Seq<char>) -> nat {
    encode_utf8(text).len()
}

/// A response: a status, a body, and the length announced for the body.
#[derive(Debug, Clone, PartialEq)]
pub struct Response {
    pub http_status: HttpStatus,
    pub contents: String,
    pub contents_length: usize,
}

impl Response {
    /// The text that `render` produces: the status line, one header line
    /// with the announced length, an empty line, and the body. The header's
    /// name is spelled `Content-Lenght`.
    pub open spec fn rendered(self) -> Seq<char> {
        "HTTP/1.1 "@ + decimal(self.http_status.code() as nat) + " "@ + self.http_status.reason()
            + "\r\nContent-Lenght: "@ + decimal(self.contents_length as nat) + "\r\n\r\n"@
            + self.contents@
    }

    /// A response with the given status and body. The announced length is
    /// the length of the body in bytes, as a `usize`.
    pub fn new(http_status: HttpStatus, contents: String) -> (r: Self)
        ensures
            r.http_status == http_status,
            r.contents == contents,
            r.contents_length == byte_len(contents@) as usize,
    {
        let contents_length = contents.as_str().len();
        Response { http_status, contents, contents_length }
    }

    /// The response as it goes over the wire.
    pub fn render(&self) -> (text: String)
        ensures
            text@ == self.rendered(),
    {
        let mut text = String::from_str("HTTP/1.1 ");
        let code = to_decimal(self.http_status.status_code() as u64);
        text.append(code.as_str());
        text.append(" ");
        text.append(self.http_status.status_info());
        text.append("\r\nContent-Lenght: ");
        let length = to_decimal(self.contents_length as u64);
        text.append(length.as_str());
        text.append("\r\n\r\n");
        text.append(self.contents.as_str());
        text
    }
}

} // verus!
