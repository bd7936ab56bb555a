//! Response classification: the request dispatcher's terminal outcomes.
//!
//! A request ends in exactly one of three responses: 405 for any method
//! other than GET, 404 for every resource-level failure (no candidate
//! resolved, the read failed, the bytes were not valid text), and 200 with
//! the rendered markup when everything succeeded.

use vstd::prelude::*;
use crate::render::{html_of, render};
use vstd::utf8::{valid_utf8, decode_utf8};

verus! {

/// An HTTP response as the connection layer needs it: a status code and a
/// body. The serving library around it supplies framing and headers.
pub struct Response {
    pub status: u16,
    pub body: String,
}

/// Body sent with every 404 response.
pub open spec fn not_found_body() -> Seq<char> {
    "This file was not found"@
}

/// Body sent with every 405 response.
pub open spec fn method_not_allowed_body() -> Seq<char> {
    "Method is not allowed."@
}

/// The status of the response to a request, given whether the method was
/// GET and, if so, the bytes that resolution and the file read produced
/// (`None` when no candidate resolved or the read failed).
pub open spec fn handled_status(is_get: bool, loaded: Option<Seq<u8>>) -> int {
    if !is_get {
        405
    } else {
        match loaded {
            Some(bytes) => if valid_utf8(bytes) {
                200
            } else {
                404
            },
            None => 404,
        }
    }
}

/// The body of the response to a request, under the same inputs as
/// [`handled_status`].
pub open spec fn handled_body(is_get: bool, loaded: Option<Seq<u8>>) -> Seq<char> {
    if !is_get {
        method_not_allowed_body()
    } else {
        match loaded {
            Some(bytes) => if valid_utf8(bytes) {
                html_of(decode_utf8(bytes))
            } else {
                not_found_body()
            },
            None => not_found_body(),
        }
    }
}

/// The view of the loaded bytes, as [`handled_status`] and [`handled_body`]
/// take them.
pub open spec fn loaded_view(loaded: Option<Vec<u8>>) -> Option<Seq<u8>> {
    match loaded {
        Some(bytes) => Some(bytes@),
        None => None,
    }
}

/// Relies on core::str::from_utf8: it returns Ok exactly when the bytes are
/// a valid UTF-8 encoding, and the text is that encoding's characters.
#[verifier::external_body]
fn utf8_text(bytes: &Vec<u8>) -> (r: Option<String>)
    ensures
        r is Some <==> valid_utf8(bytes@),
        r matches Some(s) ==> s@ == decode_utf8(bytes@),
{
    match core::str::from_utf8(bytes.as_slice()) {
        Ok(text) => Some(text.to_owned()),
        Err(_) => None,
    }
}

/// Decode document bytes as UTF-8 text; any invalid encoding yields `None`,
/// which the dispatcher treats as not-found.
pub fn decode_document(bytes: &Vec<u8>) -> (r: Option<String>)
    ensures
        r is Some <==> valid_utf8(bytes@),
        r matches Some(s) ==> s@ == decode_utf8(bytes@),
{
    utf8_text(bytes)
}

/// The 404 response: sent for every resource-level failure.
pub fn not_found() -> (r: Response)
    ensures
        r.status == 404,
        r.body@ == not_found_body(),
{
    Response { status: 404, body: "This file was not found".to_owned() }
}

/// The 405 response: sent for every method other than GET.
pub fn method_not_allowed() -> (r: Response)
    ensures
        r.status == 405,
        r.body@ == method_not_allowed_body(),
{
    Response { status: 405, body: "Method is not allowed.".to_owned() }
}

/// The 200 response carrying the rendered markup.
pub fn ok(body: String) -> (r: Response)
    ensures
        r.status == 200,
        r.body@ == body@,
{
    Response { status: 200, body }
}

/// The dispatcher's terminal step: classify a request into its response.
///
/// `is_get` says whether the request method was GET; `loaded` holds the
/// bytes read from the resolved document, or `None` when the method was not
/// GET, no candidate resolved, or the read failed. Failures carry no detail:
/// they all collapse to the fixed 404 body.
pub fn handle(is_get: bool, loaded: Option<Vec<u8>>) -> (r: Response)
    ensures
        r.status == handled_status(is_get, loaded_view(loaded)),
        r.body@ == handled_body(is_get, loaded_view(loaded)),
{
    if !is_get {
        return method_not_allowed();
    }
    match loaded {
        None => not_found(),
        Some(bytes) => match decode_document(&bytes) {
            None => not_found(),
            Some(text) => ok(render(text.as_str())),
        },
    }
}

} // verus!
