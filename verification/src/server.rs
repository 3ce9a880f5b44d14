//! The routing layer's decisions: what the built-in endpoint asks of the
//! forwarding engine, what it answers, how a rejection becomes a reply, and
//! the cross-origin policy.
//!
//! Serving, route matching and JSON stay with the embedding program.

use std::collections::HashMap;
use vstd::prelude::*;
use vstd::string::*;

use crate::pool::{front, ProxyPool};
use crate::request::{
    concluded, make_https_request, method_of, planned, read_https_response, ForwardError,
    ForwardErrorView, ForwardRequest, ForwardRequestView, ForwardResult, ForwardResultView,
    TransportOutcome, TransportOutcomeView,
};
use crate::text::{text_of, texts};

verus! {

/// The payload of the built-in endpoint.
#[derive(Clone, Debug, PartialEq, Eq)]
pub struct ProxyRequest {
    pub url: String,
    pub method: String,
    pub headers: Option<HashMap<String, String>>,
    pub body: Option<String>,
    /// The candidate proxies; the list may be empty.
    pub proxies: Vec<String>,
}

/// The errors that the routing layer raises.
#[derive(Clone, Debug, PartialEq, Eq)]
pub enum CustomError {
    /// The forward failed; holds the failure's description.
    ProxyRequestFailed(String),
    /// The inbound request was malformed.
    InvalidRequest(String),
    UnknownError,
}

/// A [`CustomError`] with its messages as texts.
pub enum CustomErrorView {
    ProxyRequestFailed(Seq<char>),
    InvalidRequest(Seq<char>),
    UnknownError,
}

impl View for CustomError {
    type V = CustomErrorView;

    open spec fn view(&self) -> CustomErrorView {
        match *self {
            CustomError::ProxyRequestFailed(msg) => CustomErrorView::ProxyRequestFailed(msg@),
            CustomError::InvalidRequest(msg) => CustomErrorView::InvalidRequest(msg@),
            CustomError::UnknownError => CustomErrorView::UnknownError,
        }
    }
}

impl CustomErrorView {
    /// The error as a sentence.
    pub open spec fn message(self) -> Seq<char> {
        match self {
            CustomErrorView::ProxyRequestFailed(msg) => "Proxy request failed: "@ + msg,
            CustomErrorView::InvalidRequest(msg) => "Invalid request: "@ + msg,
            CustomErrorView::UnknownError => "An unknown error occurred"@,
        }
    }
}

impl CustomError {
    /// The error as a sentence.
    pub fn to_string(&self) -> (text: String)
        ensures
            text@ == self@.message(),
    {
        match self {
            CustomError::ProxyRequestFailed(msg) => String::from_str(
                "Proxy request failed: ",
            ).concat(msg.as_str()),
            CustomError::InvalidRequest(msg) => String::from_str("Invalid request: ").concat(
                msg.as_str(),
            ),
            CustomError::UnknownError => String::from_str("An unknown error occurred"),
        }
    }
}

/// The rejection that the routing layer raises for a failed forward.
pub open spec fn rejection_of(e: ForwardErrorView) -> CustomErrorView {
    CustomErrorView::ProxyRequestFailed(e.description())
}

/// What the built-in endpoint asks for a payload: the call that the
/// forwarding engine plans with the first candidate proxy, if there is one,
/// or the rejection of the payload.
pub open spec fn requested(
    url: Seq<char>,
    method: Seq<char>,
    headers: Option<HashMap<String, String>>,
    body: Option<Seq<char>>,
    proxies: Seq<Seq<char>>,
) -> Result<ForwardRequestView, CustomErrorView> {
    match planned(url, method, headers, body, front(proxies)) {
        Ok(call) => Ok(call),
        Err(e) => Err(rejection_of(e)),
    }
}

/// What the built-in endpoint answers, given how the outbound call ended.
pub open spec fn answered(outcome: TransportOutcomeView) -> Result<
    ForwardResultView,
    CustomErrorView,
> {
    match concluded(outcome) {
        Ok(result) => Ok(result),
        Err(e) => Err(rejection_of(e)),
    }
}

/// The view of what the endpoint asks for.
pub open spec fn request_view(r: Result<ForwardRequest, CustomError>) -> Result<
    ForwardRequestView,
    CustomErrorView,
> {
    match r {
        Ok(call) => Ok(call@),
        Err(e) => Err(e@),
    }
}

/// The view of what the endpoint answers.
pub open spec fn answer_view(r: Result<ForwardResult, CustomError>) -> Result<
    ForwardResultView,
    CustomErrorView,
> {
    match r {
        Ok(result) => Ok(result@),
        Err(e) => Err(e@),
    }
}

/// The rejection that the routing layer raises for a failed forward.
pub fn reject(e: ForwardError) -> (rejection: CustomError)
    ensures
        rejection@ == rejection_of(e@),
{
    CustomError::ProxyRequestFailed(e.description())
}

/// Handles a proxy request up to the outbound call: builds a pool of the
/// payload's proxies, draws one, and plans the forward through it.
///
/// With an empty list nothing is drawn and the call goes without a proxy.
pub fn handle_proxy_request(req: ProxyRequest) -> (r: Result<ForwardRequest, CustomError>)
    ensures
        request_view(r) == requested(
            req.url@,
            req.method@,
            req.headers,
            text_of(req.body),
            texts(req.proxies@),
        ),
        req.proxies@.len() == 0 && method_of(req.method@) is Some ==> r is Ok && r->Ok_0.proxy
            is None,
{
    let ProxyRequest { url, method, headers, body, proxies } = req;
    let mut proxy_pool = ProxyPool::new(proxies);
    let proxy_url = proxy_pool.get_proxy();
    let planned_call = match &proxy_url {
        Some(proxy) => make_https_request(
            url.as_str(),
            method.as_str(),
            headers,
            body,
            Some(proxy.as_str()),
        ),
        None => make_https_request(url.as_str(), method.as_str(), headers, body, None),
    };
    match planned_call {
        Ok(call) => Ok(call),
        Err(e) => Err(reject(e)),
    }
}

/// Handles a proxy request from the outbound call on: the normalized
/// result, or the rejection that carries the failure's description.
pub fn handle_proxy_response(outcome: TransportOutcome) -> (r: Result<ForwardResult, CustomError>)
    ensures
        answer_view(r) == answered(outcome@),
{
    match read_https_response(outcome) {
        Ok(result) => Ok(result),
        Err(e) => Err(reject(e)),
    }
}

/// The reply to a rejection: a status code and a JSON text.
#[derive(Clone, Debug, PartialEq, Eq)]
pub struct RejectionReply {
    pub status: u16,
    pub body: String,
}

/// The status code of the reply to a rejection that nothing has mapped.
pub const UNHANDLED_STATUS: u16 = 500;

/// The JSON text of the reply to a rejection that nothing has mapped.
pub open spec fn unhandled_body() -> Seq<char> {
    "{\"message\":\"Unhandled rejection\",\"status\":\"error\"}"@
}

/// Turns a rejection into a reply. `custom` is what the embedding
/// program's mapping made of the rejection: a status code and a JSON text,
/// or nothing where it made nothing of it or there is no mapping.
///
/// A mapped rejection is answered verbatim; any other with status 500 and
/// the message "Unhandled rejection".
pub fn handle_rejection_with_custom(custom: Option<(u16, String)>) -> (reply: RejectionReply)
    ensures
        match custom {
            Some((status, body)) => reply.status == status && reply.body@ == body@,
            None => reply.status == UNHANDLED_STATUS && reply.body@ == unhandled_body(),
        },
{
    match custom {
        Some((status, body)) => RejectionReply { status, body },
        None => RejectionReply {
            status: UNHANDLED_STATUS,
            body: String::from_str("{\"message\":\"Unhandled rejection\",\"status\":\"error\"}"),
        },
    }
}

/// What responses tell browsers of cross-origin use.
#[derive(Clone, Debug, PartialEq, Eq)]
pub struct CorsPolicy {
    pub allow_any_origin: bool,
    pub allowed_methods: Vec<String>,
    pub allowed_headers: Vec<String>,
}

/// The methods that the cross-origin policy allows.
pub open spec fn cors_methods() -> Seq<Seq<char>> {
    seq!["GET"@, "POST"@, "PUT"@, "HEAD"@, "DELETE"@, "OPTIONS"@]
}

/// The request headers that the cross-origin policy allows.
pub open spec fn cors_headers() -> Seq<Seq<char>> {
    seq!["Content-Type"@, "Authorization"@]
}

/// The fixed cross-origin policy: any origin, six methods, two headers.
pub fn cors_policy() -> (policy: CorsPolicy)
    ensures
        policy.allow_any_origin,
        texts(policy.allowed_methods@) == cors_methods(),
        texts(policy.allowed_headers@) == cors_headers(),
{
    let mut allowed_methods: Vec<String> = Vec::new();
    allowed_methods.push(String::from_str("GET"));
    allowed_methods.push(String::from_str("POST"));
    allowed_methods.push(String::from_str("PUT"));
    allowed_methods.push(String::from_str("HEAD"));
    allowed_methods.push(String::from_str("DELETE"));
    allowed_methods.push(String::from_str("OPTIONS"));
    let mut allowed_headers: Vec<String> = Vec::new();
    allowed_headers.push(String::from_str("Content-Type"));
    allowed_headers.push(String::from_str("Authorization"));
    assert(texts(allowed_methods@) =~= cors_methods());
    assert(texts(allowed_headers@) =~= cors_headers());
    CorsPolicy { allow_any_origin: true, allowed_methods, allowed_headers }
}

} // verus!
