//! Trusted bindings to the real HTTP header objects of `pingora_http`.
//!
//! The request and response header types are opaque to the verifier;
//! what the gateway logic reads of them is named by uninterpreted
//! spec functions, and the few operations the logic performs go
//! through thin wrappers whose contracts state what the crate's code
//! does in terms of those names.
//!
//! Naming conventions of the models:
//! - `req_headers` / `resp_headers` map each normalized header name to
//!   the first value stored under it.
//! - `header_key` is the normalization the header types apply to a
//!   name on insertion and lookup (for names they accept, the
//!   ASCII-lowercase form); a name the types reject normalizes to a
//!   reserved key that no real header object ever carries.
//! - `header_name_ok` / `header_value_ok` say whether the underlying
//!   types accept a name or value.

use vstd::prelude::*;

use pingora_http::RequestHeader;
use pingora_http::ResponseHeader;

use crate::error::GatewayError;

verus! {

#[verifier::external_type_specification]
#[verifier::external_body]
pub struct ExRequestHeader(RequestHeader);

#[verifier::external_type_specification]
#[verifier::external_body]
pub struct ExResponseHeader(ResponseHeader);

/// The most distinct header names a commit will put into one real
/// header object.  The underlying map refuses growth beyond 1 << 15
/// names, and its internal growth steps can refuse earlier; staying at
/// 1 << 12 keeps every insert below all of them.
pub const HEADER_NAME_CAPACITY: usize = 0x1000;

/// The contents of a header object that carries nothing.
pub open spec fn empty_headers() -> Map<Seq<char>, Seq<u8>> {
    Map::empty()
}

/// How many distinct names a header map model carries, as one total
/// value: the domain's size when it is finite, and an impossible
/// marker otherwise, so that equality with a machine integer carries
/// finiteness along.
pub open spec fn header_name_count(m: Map<Seq<char>, Seq<u8>>) -> int {
    if m.dom().finite() {
        m.dom().len() as int
    } else {
        -1
    }
}

/// What a request header object carries: normalized name to first value.
pub uninterp spec fn req_headers(h: RequestHeader) -> Map<Seq<char>, Seq<u8>>;

/// The request method name.
pub uninterp spec fn req_method(h: RequestHeader) -> Seq<char>;

/// The path component of the request target.
pub uninterp spec fn req_path(h: RequestHeader) -> Seq<char>;

/// The query component of the request target, if any.
pub uninterp spec fn req_query(h: RequestHeader) -> Option<Seq<char>>;

/// What a response header object carries: normalized name to first value.
pub uninterp spec fn resp_headers(h: ResponseHeader) -> Map<Seq<char>, Seq<u8>>;

/// The response status code.
pub uninterp spec fn resp_status(h: ResponseHeader) -> u16;

/// The normalized form of a header name.
pub uninterp spec fn header_key(name: Seq<char>) -> Seq<char>;

/// Whether the header types accept this name.
pub uninterp spec fn header_name_ok(name: Seq<char>) -> bool;

/// Whether the header types accept this value.
pub uninterp spec fn header_value_ok(value: Seq<u8>) -> bool;

/// Relies on `http::Method::as_str`, reached through the request
/// header's embedded parts: the method name, a function of the header
/// object alone.
#[verifier::external_body]
pub(crate) fn req_method_str(h: &RequestHeader) -> (s: &str)
    ensures
        s@ == req_method(*h),
{
    h.method.as_str()
}

/// Relies on `http::Uri::path`, reached through the request header's
/// embedded parts: the path component of the stored target.
#[verifier::external_body]
pub(crate) fn req_path_str(h: &RequestHeader) -> (s: &str)
    ensures
        s@ == req_path(*h),
{
    h.uri.path()
}

/// Relies on `http::Uri::query`, reached through the request header's
/// embedded parts: the query component of the stored target, if any.
#[verifier::external_body]
pub(crate) fn req_query_str(h: &RequestHeader) -> (s: Option<&str>)
    ensures
        match s {
            Some(q) => req_query(*h) == Some(q@),
            None => req_query(*h) is None,
        },
{
    h.uri.query()
}

/// Relies on `http::HeaderMap::get` through the request header's
/// embedded parts: the first value stored under the case-insensitively
/// normalized name, or nothing when no entry carries it.
#[verifier::external_body]
pub(crate) fn req_header_bytes<'a>(h: &'a RequestHeader, name: &str) -> (r: Option<&'a [u8]>)
    ensures
        match r {
            Some(v) => req_headers(*h).contains_key(header_key(name@))
                && v@ == req_headers(*h)[header_key(name@)],
            None => !req_headers(*h).contains_key(header_key(name@)),
        },
{
    match h.headers.get(name) {
        Some(v) => Some(v.as_bytes()),
        None => None,
    }
}

/// Relies on `pingora_http::ResponseHeader::build`: a fresh response
/// header object with the given status and no headers.  Status codes in
/// 100..=999 are the ones `http::StatusCode` accepts.
#[verifier::external_body]
pub(crate) fn resp_build(status: u16) -> (h: ResponseHeader)
    requires
        100 <= status <= 999,
    ensures
        resp_status(h) == status,
        resp_headers(h) == empty_headers(),
{
    ResponseHeader::build(status, None).unwrap()
}

/// Relies on `http::HeaderMap::keys_len` through the response
/// header's embedded parts: how many distinct names the object
/// carries.  A real header map always carries finitely many.
#[verifier::external_body]
pub(crate) fn resp_header_name_count(h: &ResponseHeader) -> (count: usize)
    ensures
        count == header_name_count(resp_headers(*h)),
{
    h.headers.keys_len()
}

/// Relies on `pingora_http::ResponseHeader::insert_header`: when the
/// name and value are acceptable it replaces every value stored under
/// the normalized name with the given one and succeeds; otherwise it
/// fails and leaves the object untouched.  The underlying map aborts
/// if it must grow past its fixed limits, so the body refuses, with
/// the same error and the object untouched, before an insert that
/// would carry the object beyond [`HEADER_NAME_CAPACITY`] distinct
/// names (checked with `http::HeaderMap::keys_len`); below that bound
/// no growth step of the map can refuse, so acceptance of the name
/// and value alone decides.
#[verifier::external_body]
pub(crate) fn resp_insert_header(
    h: &mut ResponseHeader,
    name: &str,
    value: &[u8],
) -> (r: Result<(), GatewayError>)
    ensures
        (r is Ok) == (header_name_ok(name@) && header_value_ok(value@) && resp_headers(
            *old(h),
        ).dom().finite() && resp_headers(*old(h)).dom().len() < HEADER_NAME_CAPACITY),
        r is Ok ==> resp_headers(*final(h)) == resp_headers(*old(h)).insert(
            header_key(name@),
            value@,
        ) && resp_status(*final(h)) == resp_status(*old(h)),
        r is Err ==> *final(h) == *old(h) && (r->Err_0 == GatewayError::InvalidHeader || r->Err_0
            == GatewayError::HeaderCapacityExceeded),
        r is Err && header_name_ok(name@) && header_value_ok(value@) ==> r->Err_0
            == GatewayError::HeaderCapacityExceeded,
        r is Err && !(header_name_ok(name@) && header_value_ok(value@)) && resp_headers(
            *old(h),
        ).dom().len() < HEADER_NAME_CAPACITY && resp_headers(*old(h)).dom().finite() ==> r->Err_0
            == GatewayError::InvalidHeader,
{
    if h.headers.keys_len() >= HEADER_NAME_CAPACITY {
        return Err(GatewayError::HeaderCapacityExceeded);
    }
    match h.insert_header(name.to_string(), value) {
        Ok(()) => Ok(()),
        Err(_) => Err(GatewayError::InvalidHeader),
    }
}

} // verus!
