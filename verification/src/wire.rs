//! In-memory wire representations of HTTP messages.
//!
//! The engine produces and consumes these values only; sending and
//! receiving them is the transport collaborator's concern.

use vstd::prelude::*;
use crate::chars::chars_to_string;
use crate::chars::str_chars;
use crate::metadata::HttpMethod;

verus! {

/// An outgoing HTTP request: method, rendered path, query string (empty
/// when there are no query parameters), headers in order, and body.
#[derive(Clone, Debug)]
pub struct WireRequest {
    pub method: HttpMethod,
    pub path: String,
    pub query: String,
    pub headers: Vec<(String, String)>,
    pub body: Vec<u8>,
}

/// An incoming HTTP response: status code, headers in order, and body.
/// The decoder never reads the status itself; recognizing success is the
/// transport collaborator's concern.
#[derive(Clone, Debug)]
pub struct WireResponse {
    pub status: u16,
    pub headers: Vec<(String, String)>,
    pub body: Vec<u8>,
}

impl WireRequest {
    /// The request target: the path, followed by `?` and the query string
    /// when one is present.
    pub fn uri(&self) -> (r: String)
        ensures
            self.query@.len() == 0 ==> r@ == self.path@,
            self.query@.len() > 0 ==> r@ == self.path@ + seq!['?'] + self.query@,
    {
        if self.query.as_str().is_empty() {
            let out = str_chars(self.path.as_str());
            chars_to_string(out)
        } else {
            let mut out = str_chars(self.path.as_str());
            out.push('?');
            let mut q = str_chars(self.query.as_str());
            out.append(&mut q);
            proof {
                assert(out@ =~= self.path@ + seq!['?'] + self.query@);
            }
            chars_to_string(out)
        }
    }
}

} // verus!
