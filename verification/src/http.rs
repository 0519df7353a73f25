//! The request shape the library hands to a transport driver.

use vstd::prelude::*;

verus! {

/// An HTTP method the client core uses.
#[derive(Clone, Copy, Debug, PartialEq, Eq, Structural)]
pub enum Method {
    Get,
    Post,
    Put,
}

/// A fully prepared request against the homeserver: the driver only has to
/// send it verbatim (adding `Authorization: Bearer <auth>` when `auth` is
/// set and `Content-Type: application/json` when `body` is set) and hand the
/// status code and body text back to the library.
pub struct HttpRequest {
    pub method: Method,
    pub url: String,
    pub auth: Option<String>,
    pub body: Option<String>,
}

/// The mathematical image of an [`HttpRequest`].
pub ghost struct HttpRequestView {
    pub method: Method,
    pub url: Seq<char>,
    pub auth: Option<Seq<char>>,
    pub body: Option<Seq<char>>,
}

impl View for HttpRequest {
    type V = HttpRequestView;

    open spec fn view(&self) -> HttpRequestView {
        HttpRequestView {
            method: self.method,
            url: self.url@,
            auth: match self.auth {
                Some(t) => Some(t@),
                None => None,
            },
            body: match self.body {
                Some(b) => Some(b@),
                None => None,
            },
        }
    }
}

} // verus!
