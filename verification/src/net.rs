//! Trusted wrappers around the blocking HTTP client.  Nothing is promised
//! of what the network returns: every caller states what holds of each
//! possible outcome.

use vstd::prelude::*;

verus! {

#[verifier::external_type_specification]
#[verifier::external_body]
pub struct ExResponse(reqwest::blocking::Response);

/// Relies on reqwest::blocking::get: issues one blocking HTTP GET to the
/// given URL and yields the response, or nothing on a transport failure.
/// The outcome depends on the network, so nothing is stated of it.
#[verifier::external_body]
pub(crate) fn http_get(url: &str) -> Option<reqwest::blocking::Response> {
    reqwest::blocking::get(url).ok()
}

/// Relies on reqwest's Response::headers, HeaderMap::get(LAST_MODIFIED)
/// and HeaderValue::to_str: the outer option is whether the header is
/// present, the inner one whether its value decodes as visible ASCII.
#[verifier::external_body]
pub(crate) fn header_last_modified(res: &reqwest::blocking::Response) -> Option<Option<String>> {
    res.headers().get(reqwest::header::LAST_MODIFIED).map(
        |v| v.to_str().ok().map(|s| s.to_string()),
    )
}

/// Relies on reqwest's Response::headers, HeaderMap::get(DATE) and
/// HeaderValue::to_str: the outer option is whether the header is present,
/// the inner one whether its value decodes as visible ASCII.
#[verifier::external_body]
pub(crate) fn header_date(res: &reqwest::blocking::Response) -> Option<Option<String>> {
    res.headers().get(reqwest::header::DATE).map(|v| v.to_str().ok().map(|s| s.to_string()))
}

/// Relies on reqwest's Response::text: decodes the full response body as
/// text, or nothing when reading or decoding fails.
#[verifier::external_body]
pub(crate) fn response_text(res: reqwest::blocking::Response) -> Option<String> {
    res.text().ok()
}

} // verus!
