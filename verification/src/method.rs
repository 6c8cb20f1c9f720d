//! The closed set of HTTP methods a request may use.

use vstd::prelude::*;

verus! {

/// An HTTP request method.
#[derive(Clone, Copy, Debug, PartialEq, Eq, Structural)]
pub enum HttpMethod {
    GET,
    POST,
    PUT,
    DELETE,
    PATCH,
    HEAD,
    OPTIONS,
}

impl HttpMethod {
    /// The lower-case name of the method.
    pub open spec fn name(self) -> Seq<char> {
        match self {
            HttpMethod::GET => "get"@,
            HttpMethod::POST => "post"@,
            HttpMethod::PUT => "put"@,
            HttpMethod::DELETE => "delete"@,
            HttpMethod::PATCH => "patch"@,
            HttpMethod::HEAD => "head"@,
            HttpMethod::OPTIONS => "options"@,
        }
    }

    /// Whether a request with this method may carry a body: only `POST`,
    /// `PUT` and `PATCH` may.
    pub open spec fn permits_body(self) -> bool {
        self == HttpMethod::POST || self == HttpMethod::PUT || self == HttpMethod::PATCH
    }

    /// The lower-case name of the method, as text.
    pub fn to_string(&self) -> (text: String)
        ensures
            text@ == self.name(),
    {
        match self {
            HttpMethod::GET => String::from_str("get"),
            HttpMethod::POST => String::from_str("post"),
            HttpMethod::PUT => String::from_str("put"),
            HttpMethod::DELETE => String::from_str("delete"),
            HttpMethod::PATCH => String::from_str("patch"),
            HttpMethod::HEAD => String::from_str("head"),
            HttpMethod::OPTIONS => String::from_str("options"),
        }
    }

    /// Whether a request with this method may carry a body.
    pub fn allows_body(&self) -> (allowed: bool)
        ensures
            allowed == self.permits_body(),
    {
        match self {
            HttpMethod::POST | HttpMethod::PUT | HttpMethod::PATCH => true,
            _ => false,
        }
    }
}

} // verus!
