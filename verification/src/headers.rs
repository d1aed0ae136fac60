//! The headers of a request and of a response, as far as connection tracking reads them.
//!
//! The header types come from the `pingora_http` and `http` crates. What they hold is
//! named here, and the few calls that read them say how they relate to those names.

use crate::header_text::{chars_of, is_header_text, text_of};
use http::{HeaderMap, HeaderValue};
use pingora_http::{RequestHeader, ResponseHeader};
use vstd::prelude::*;

verus! {

/// A request header of `pingora_http`.
#[verifier::external_type_specification]
#[verifier::external_body]
pub struct ExRequestHeader(pingora_http::RequestHeader);

/// A response header of `pingora_http`.
#[verifier::external_type_specification]
#[verifier::external_body]
pub struct ExResponseHeader(pingora_http::ResponseHeader);

/// The header map of `http`.
#[verifier::external_type_specification]
#[verifier::external_body]
#[verifier::reject_recursive_types(T)]
pub struct ExHeaderMap<T>(http::HeaderMap<T>);

/// A header value of `http`.
#[verifier::external_type_specification]
#[verifier::external_body]
pub struct ExHeaderValue(http::HeaderValue);

/// What a header map holds: under each header name, in lower case, the values that were
/// given for it, first to last, each as its bytes.
pub uninterp spec fn header_fields(map: HeaderMap<HeaderValue>) -> Map<Seq<char>, Seq<Seq<u8>>>;

/// The bytes of a header value.
pub uninterp spec fn header_bytes(value: HeaderValue) -> Seq<u8>;

/// The method of a request, as text.
pub uninterp spec fn request_method(req: RequestHeader) -> Seq<char>;

/// The header fields of a request.
pub uninterp spec fn request_fields(req: RequestHeader) -> Map<Seq<char>, Seq<Seq<u8>>>;

/// The status code of a response.
pub uninterp spec fn response_status(resp: ResponseHeader) -> u16;

/// The header fields of a response.
pub uninterp spec fn response_fields(resp: ResponseHeader) -> Map<Seq<char>, Seq<Seq<u8>>>;

/// A header name of lower case letters and hyphens, of usual length.
pub open spec fn is_plain_name(name: Seq<char>) -> bool {
    0 < name.len() <= 64 && forall|i: int|
        0 <= i < name.len() ==> ('a' <= #[trigger] name[i] <= 'z' || name[i] == '-')
}

/// The text of the first value under a name, where there is one and it reads as text.
pub open spec fn field_text(fields: Map<Seq<char>, Seq<Seq<u8>>>, name: Seq<char>) -> Option<
    Seq<char>,
> {
    if fields.contains_key(name) && is_header_text(text_of(fields[name][0])) {
        Some(text_of(fields[name][0]))
    } else {
        None
    }
}

/// Calls `http::Method::as_str` on the method of the request, which is what comparing a
/// method with a string compares. The claim: it is the request's method.
#[verifier::external_body]
pub(crate) fn method_of(req: &RequestHeader) -> (method: &str)
    ensures
        method@ == request_method(*req),
{
    req.method.as_str()
}

/// Reads the header map of a request, through its `Deref` to `http::request::Parts`. The
/// claim: the map holds the request's header fields.
#[verifier::external_body]
pub(crate) fn request_headers(req: &RequestHeader) -> (map: &HeaderMap<HeaderValue>)
    ensures
        header_fields(*map) == request_fields(*req),
{
    &req.headers
}

/// Calls `http::StatusCode::as_u16` on the status of the response. The claim: it is the
/// response's status code.
#[verifier::external_body]
pub(crate) fn status_of(resp: &ResponseHeader) -> (status: u16)
    ensures
        status == response_status(*resp),
{
    resp.status.as_u16()
}

/// Reads the header map of a response, through its `Deref` to `http::response::Parts`. The
/// claim: the map holds the response's header fields.
#[verifier::external_body]
pub(crate) fn response_headers(resp: &ResponseHeader) -> (map: &HeaderMap<HeaderValue>)
    ensures
        header_fields(*map) == response_fields(*resp),
{
    &resp.headers
}

/// Calls `http::HeaderMap::get`. The claim: it finds the first value under the name, and
/// nothing if and only if there is none.
#[verifier::external_body]
pub(crate) fn first_value<'a>(map: &'a HeaderMap<HeaderValue>, name: &str) -> (value: Option<
    &'a HeaderValue,
>)
    requires
        is_plain_name(name@),
    ensures
        value is Some <==> header_fields(*map).contains_key(name@),
        value matches Some(v) ==> header_fields(*map)[name@].len() > 0 && header_bytes(*v)
            == header_fields(*map)[name@][0],
{
    map.get(name)
}

/// Calls `http::HeaderMap::contains_key`. The claim: it tells whether there is a value under
/// the name.
#[verifier::external_body]
pub(crate) fn has_value(map: &HeaderMap<HeaderValue>, name: &str) -> (result: bool)
    requires
        is_plain_name(name@),
    ensures
        result == header_fields(*map).contains_key(name@),
{
    map.contains_key(name)
}

/// Calls `http::HeaderValue::to_str`. The claim: it gives the bytes as characters, where all
/// of them are visible ASCII characters, spaces or tabs, and otherwise fails.
#[verifier::external_body]
pub(crate) fn value_text(value: &HeaderValue) -> (text: Option<&str>)
    ensures
        text is Some <==> is_header_text(text_of(header_bytes(*value))),
        text matches Some(s) ==> s@ == text_of(header_bytes(*value)),
{
    value.to_str().ok()
}

/// The text of the first value under a name, where there is one and it reads as text.
pub(crate) fn first_text<'a>(map: &'a HeaderMap<HeaderValue>, name: &str) -> (text: Option<&'a str>)
    requires
        is_plain_name(name@),
    ensures
        chars_of(text) == field_text(header_fields(*map), name@),
{
    match first_value(map, name) {
        Some(value) => value_text(value),
        None => None,
    }
}

} // verus!
