//! The plain HTTP/1.1 request used to probe a server by hand.

use crate::text::push_text;
use vstd::prelude::*;
use vstd::string::*;

verus! {

/// A `GET` request for `path` on `host` that asks the server to close the
/// connection after answering.
pub open spec fn get_request(host: Seq<char>, path: Seq<char>) -> Seq<char> {
    "GET "@ + path + " HTTP/1.1"@ + "\r\n"@ + "Host: "@ + host + "\r\n"@
        + "Connection: close"@ + "\r\n"@ + "\r\n"@
}

/// The text of a `GET` request for `path` on `host`.
pub fn get_request_text(host: &str, path: &str) -> (req: String)
    ensures
        req@ == get_request(host@, path@),
{
    let mut req = String::new();
    push_text(&mut req, "GET ");
    push_text(&mut req, path);
    push_text(&mut req, " HTTP/1.1");
    push_text(&mut req, "\r\n");
    push_text(&mut req, "Host: ");
    push_text(&mut req, host);
    push_text(&mut req, "\r\n");
    push_text(&mut req, "Connection: close");
    push_text(&mut req, "\r\n");
    push_text(&mut req, "\r\n");
    req
}

} // verus!
