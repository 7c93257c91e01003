//! The HTTP values that the gateway hands to its HTTP client and server:
//! request methods and response status codes, as the `http` crate (through
//! `reqwest` and `axum`) parses them.

use std::str::FromStr;
use vstd::prelude::*;

verus! {

/// `reqwest::Method` (the `http` crate's `Method`), an HTTP request method; opaque here.
#[verifier::external_type_specification]
#[verifier::external_body]
pub struct ExMethod(reqwest::Method);

/// `axum::http::StatusCode` (the `http` crate's `StatusCode`); opaque here.
#[verifier::external_type_specification]
#[verifier::external_body]
pub struct ExStatusCode(axum::http::StatusCode);

/// The method that `Method::from_str` parses from a text; `None` where it
/// refuses the text.
pub uninterp spec fn parsed_method(s: Seq<char>) -> Option<reqwest::Method>;

/// The status code that `StatusCode::from_u16` gives for a number; `None`
/// where it refuses the number.
pub uninterp spec fn status_of(n: u16) -> Option<axum::http::StatusCode>;

/// Parses a request method with `Method::from_str`: the same text gives the
/// same method.
#[verifier::external_body]
pub(crate) fn parse_method(s: &str) -> (r: Option<reqwest::Method>)
    ensures
        r == parsed_method(s@),
{
    reqwest::Method::from_str(s).ok()
}

/// The constant `Method::GET`: the method that `Method::from_str` parses from
/// `GET` (its source maps the bytes `GET` to that very value).
#[verifier::external_body]
pub(crate) fn get_method() -> (r: reqwest::Method)
    ensures
        parsed_method("GET"@) == Some(r),
{
    reqwest::Method::GET
}

/// A status code from a number with `StatusCode::from_u16`, which accepts
/// exactly the numbers from 100 to 999.
#[verifier::external_body]
pub(crate) fn status_code(n: u16) -> (r: Option<axum::http::StatusCode>)
    ensures
        r == status_of(n),
        r is Some <==> 100 <= n <= 999,
{
    axum::http::StatusCode::from_u16(n).ok()
}

/// The constant `StatusCode::INTERNAL_SERVER_ERROR`: the code that
/// `StatusCode::from_u16` gives for 500.
#[verifier::external_body]
pub(crate) fn internal_server_error() -> (r: axum::http::StatusCode)
    ensures
        status_of(500) == Some(r),
{
    axum::http::StatusCode::INTERNAL_SERVER_ERROR
}

} // verus!
