//! Calls as the caller states them and requests as they go on the wire.

use crate::method::Method;
use crate::params::ParamSet;
use vstd::prelude::*;

verus! {

/// Scheme and host of the exchange.
pub const ORIGIN: &'static str = "https://graviex.net";

/// The same host with the port written out.
pub const ORIGIN_WITH_PORT: &'static str = "https://graviex.net:443";

/// Seconds after which a request is given up.
pub const TIMEOUT_SECS: u64 = 2;

/// A call to the exchange as the caller states it.
pub struct ApiCall {
    pub method: Method,
    /// Scheme, host and port, without a path.
    pub origin: String,
    /// Path of the endpoint, without a query string.
    pub path: String,
    /// The caller's parameters.
    pub params: ParamSet,
    /// Whether the call must be signed.
    pub signed: bool,
    /// Seconds after which the request is given up, if it is bounded.
    pub timeout_secs: Option<u64>,
}

/// A request that is ready to be sent. The parameters of a `Get` request
/// belong in the query string, those of a `Post` request in a form-encoded
/// body.
pub struct OutgoingRequest {
    pub method: Method,
    /// Absolute address: origin, then path.
    pub url: String,
    /// Every parameter that is sent.
    pub params: ParamSet,
    /// Seconds after which the request is given up, if it is bounded.
    pub timeout_secs: Option<u64>,
}

/// The address of `path` at `origin`.
pub fn absolute_url(origin: &str, path: &str) -> (url: String)
    ensures
        url@ == origin@ + path@,
{
    let mut url = String::from_str(origin);
    url.append(path);
    url
}

/// A public call to `path`.
pub fn public_call(origin: &str, path: &str, params: ParamSet, timeout_secs: Option<u64>) -> (call:
    ApiCall)
    ensures
        call.method == Method::Get,
        call.origin@ == origin@,
        call.path@ == path@,
        call.params == params,
        !call.signed,
        call.timeout_secs == timeout_secs,
{
    ApiCall {
        method: Method::Get,
        origin: String::from_str(origin),
        path: String::from_str(path),
        params,
        signed: false,
        timeout_secs,
    }
}

/// A call to `path` that must be signed.
pub fn signed_call(method: Method, path: &str, params: ParamSet) -> (call: ApiCall)
    ensures
        call.method == method,
        call.origin@ == ORIGIN@,
        call.path@ == path@,
        call.params == params,
        call.signed,
        call.timeout_secs == Some(TIMEOUT_SECS),
{
    ApiCall {
        method,
        origin: String::from_str(ORIGIN),
        path: String::from_str(path),
        params,
        signed: true,
        timeout_secs: Some(TIMEOUT_SECS),
    }
}

} // verus!
