//! The origin fetcher: one blocking GET of the origin URL, its body decoded
//! as text. Failures are not cached and not retried.

use vstd::prelude::*;

verus! {

/// Why an origin fetch failed: the request itself, or decoding the body as
/// text.
#[derive(PartialEq, Eq, Structural, Clone, Copy, Debug)]
pub enum FetchError {
    Network,
    Decode,
}

#[verifier::external_type_specification]
#[verifier::external_body]
pub struct ExResponse(reqwest::blocking::Response);

#[verifier::external_type_specification]
#[verifier::external_body]
pub struct ExReqwestError(reqwest::Error);

/// Relies on reqwest::blocking::get: one blocking GET of `url`, no retry,
/// redirects and timeouts left to the transport's defaults. Nothing can be
/// promised of the outcome of a network round trip. (The blocking client
/// panics when driven from inside an async runtime; this library is
/// synchronous throughout.)
#[verifier::external_body]
fn http_get(url: &str) -> Result<reqwest::blocking::Response, reqwest::Error> {
    reqwest::blocking::get(url)
}

/// Relies on reqwest::blocking::Response::text: the response body decoded
/// as text; what it holds depends on the origin, so nothing is promised.
#[verifier::external_body]
fn response_text(response: reqwest::blocking::Response) -> Result<String, reqwest::Error> {
    response.text()
}

/// One blocking GET of `url` with the body decoded as text: `Network` when
/// the request itself fails, `Decode` when the body cannot be read as text.
/// The outcome depends on the network, so the callers state what holds of
/// every outcome.
pub fn fetch(url: &String) -> Result<String, FetchError> {
    match http_get(url.as_str()) {
        Ok(response) => match response_text(response) {
            Ok(body) => Ok(body),
            Err(_) => Err(FetchError::Decode),
        },
        Err(_) => Err(FetchError::Network),
    }
}

} // verus!
