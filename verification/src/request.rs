//! The forwarding engine: what is decided before the outbound call is made
//! and what is made of its outcome.
//!
//! The call itself is not made here. [`make_https_request`] turns the
//! caller's words into a [`ForwardRequest`] or refuses them;
//! [`read_https_response`] turns what the transport reports into a
//! [`ForwardResult`] or a classified error.

use std::collections::HashMap;
use vstd::prelude::*;
use vstd::string::*;

use vstd::utf8::{decode_utf8, valid_utf8};

use crate::headers::{
    collapse_headers, collapsed, content_encoding_name, first_header, first_value, header_values,
    last_header, last_value, lemma_header_names, location_name, set_cookie_name, values_of,
};
use crate::text::{
    chars_of, contains_ignoring_case, contains_text, lower_chars, lowercase, same_chars, text_of,
    text_pairs, texts,
};

verus! {

/// The HTTP methods that can be forwarded.
#[derive(Clone, Copy, Debug, PartialEq, Eq, Structural)]
pub enum Method {
    Get,
    Post,
    Put,
    Head,
    Delete,
}

/// Why a forward failed. Each variant but the first holds the description
/// of the failure, the underlying cause included.
#[derive(Clone, Debug, PartialEq, Eq)]
pub enum ForwardError {
    UnsupportedMethod,
    InvalidProxyUrl(String),
    ClientBuildError(String),
    RequestFailed(String),
    DecompressionError(String),
}

/// A [`ForwardError`] with its descriptions as texts.
pub enum ForwardErrorView {
    UnsupportedMethod,
    InvalidProxyUrl(Seq<char>),
    ClientBuildError(Seq<char>),
    RequestFailed(Seq<char>),
    DecompressionError(Seq<char>),
}

impl View for ForwardError {
    type V = ForwardErrorView;

    open spec fn view(&self) -> ForwardErrorView {
        match *self {
            ForwardError::UnsupportedMethod => ForwardErrorView::UnsupportedMethod,
            ForwardError::InvalidProxyUrl(d) => ForwardErrorView::InvalidProxyUrl(d@),
            ForwardError::ClientBuildError(d) => ForwardErrorView::ClientBuildError(d@),
            ForwardError::RequestFailed(d) => ForwardErrorView::RequestFailed(d@),
            ForwardError::DecompressionError(d) => ForwardErrorView::DecompressionError(d@),
        }
    }
}

impl ForwardErrorView {
    /// The description of the failure, as a caller is shown it.
    pub open spec fn description(self) -> Seq<char> {
        match self {
            ForwardErrorView::UnsupportedMethod => "Unsupported HTTP method"@,
            ForwardErrorView::InvalidProxyUrl(d) => d,
            ForwardErrorView::ClientBuildError(d) => d,
            ForwardErrorView::RequestFailed(d) => d,
            ForwardErrorView::DecompressionError(d) => d,
        }
    }
}

impl ForwardError {
    /// The description of the failure, as a caller is shown it.
    pub fn description(&self) -> (text: String)
        ensures
            text@ == self@.description(),
    {
        match self {
            ForwardError::UnsupportedMethod => String::from_str("Unsupported HTTP method"),
            ForwardError::InvalidProxyUrl(d) => d.clone(),
            ForwardError::ClientBuildError(d) => d.clone(),
            ForwardError::RequestFailed(d) => d.clone(),
            ForwardError::DecompressionError(d) => d.clone(),
        }
    }
}

/// One outbound call, ready to be made: the method is one that can be
/// forwarded and the proxy, if there is one, is a well-formed proxy URL.
#[derive(Clone, Debug, PartialEq, Eq)]
pub struct ForwardRequest {
    pub url: String,
    pub method: Method,
    /// Attached to the call verbatim.
    pub headers: Option<HashMap<String, String>>,
    /// Attached to the call verbatim.
    pub body: Option<String>,
    /// The one proxy that the call goes through.
    pub proxy: Option<String>,
    /// Whether the transport follows a redirect by itself. Never set: a
    /// redirect is a response like any other.
    pub follow_redirects: bool,
}

/// A [`ForwardRequest`] with its strings as texts.
pub struct ForwardRequestView {
    pub url: Seq<char>,
    pub method: Method,
    pub headers: Option<HashMap<String, String>>,
    pub body: Option<Seq<char>>,
    pub proxy: Option<Seq<char>>,
    pub follow_redirects: bool,
}

impl View for ForwardRequest {
    type V = ForwardRequestView;

    open spec fn view(&self) -> ForwardRequestView {
        ForwardRequestView {
            url: self.url@,
            method: self.method,
            headers: self.headers,
            body: text_of(self.body),
            proxy: text_of(self.proxy),
            follow_redirects: self.follow_redirects,
        }
    }
}

/// The method that `name` stands for, whatever the case of its letters.
pub open spec fn method_of(name: Seq<char>) -> Option<Method> {
    let folded = lowercase(name);
    if folded == seq!['g', 'e', 't'] {
        Some(Method::Get)
    } else if folded == seq!['p', 'o', 's', 't'] {
        Some(Method::Post)
    } else if folded == seq!['p', 'u', 't'] {
        Some(Method::Put)
    } else if folded == seq!['h', 'e', 'a', 'd'] {
        Some(Method::Head)
    } else if folded == seq!['d', 'e', 'l', 'e', 't', 'e'] {
        Some(Method::Delete)
    } else {
        None
    }
}

/// The method that `name` stands for, whatever the case of its letters.
pub fn parse_method(name: &str) -> (method: Option<Method>)
    ensures
        method == method_of(name@),
{
    proof {
        reveal_strlit("get");
        reveal_strlit("post");
        reveal_strlit("put");
        reveal_strlit("head");
        reveal_strlit("delete");
        assert("get"@ =~= seq!['g', 'e', 't']);
        assert("post"@ =~= seq!['p', 'o', 's', 't']);
        assert("put"@ =~= seq!['p', 'u', 't']);
        assert("head"@ =~= seq!['h', 'e', 'a', 'd']);
        assert("delete"@ =~= seq!['d', 'e', 'l', 'e', 't', 'e']);
    }
    let folded = lower_chars(name);
    if same_chars(&folded, &chars_of("get")) {
        Some(Method::Get)
    } else if same_chars(&folded, &chars_of("post")) {
        Some(Method::Post)
    } else if same_chars(&folded, &chars_of("put")) {
        Some(Method::Put)
    } else if same_chars(&folded, &chars_of("head")) {
        Some(Method::Head)
    } else if same_chars(&folded, &chars_of("delete")) {
        Some(Method::Delete)
    } else {
        None
    }
}

/// What the proxy URL parser says against `url`: nothing where it takes
/// `url` for a proxy URL, else its description of what is wrong.
pub uninterp spec fn proxy_url_rejection(url: Seq<char>) -> Option<Seq<char>>;

/// Asks `reqwest::Proxy::http` whether `url` is a proxy URL. The parser's
/// verdict depends on `url` alone; the contract gives it its name and says
/// nothing of which URLs pass.
#[verifier::external_body]
fn check_proxy_url(url: &str) -> (rejection: Option<String>)
    ensures
        text_of(rejection) == proxy_url_rejection(url@),
{
    match reqwest::Proxy::http(url) {
        Ok(_) => None,
        Err(e) => Some(e.to_string()),
    }
}

/// The view of an attempt to plan a call.
pub open spec fn plan_view(r: Result<ForwardRequest, ForwardError>) -> Result<
    ForwardRequestView,
    ForwardErrorView,
> {
    match r {
        Ok(call) => Ok(call@),
        Err(e) => Err(e@),
    }
}

/// The call with method `method`, or the refusal of a proxy that the parser
/// has rejected with `rejection`.
pub open spec fn with_proxy(
    url: Seq<char>,
    method: Method,
    headers: Option<HashMap<String, String>>,
    body: Option<Seq<char>>,
    proxy: Option<Seq<char>>,
    rejection: Option<Seq<char>>,
) -> Result<ForwardRequestView, ForwardErrorView> {
    if proxy is Some && rejection is Some {
        Err(ForwardErrorView::InvalidProxyUrl("Invalid proxy URL: "@ + rejection->0))
    } else {
        Ok(ForwardRequestView { url, method, headers, body, proxy, follow_redirects: false })
    }
}

/// What is planned for the caller's words: a method that cannot be
/// forwarded is refused first, then a proxy that is no proxy URL.
pub open spec fn planned(
    url: Seq<char>,
    method: Seq<char>,
    headers: Option<HashMap<String, String>>,
    body: Option<Seq<char>>,
    proxy: Option<Seq<char>>,
) -> Result<ForwardRequestView, ForwardErrorView> {
    match method_of(method) {
        None => Err(ForwardErrorView::UnsupportedMethod),
        Some(m) => with_proxy(
            url,
            m,
            headers,
            body,
            proxy,
            match proxy {
                Some(p) => proxy_url_rejection(p),
                None => None,
            },
        ),
    }
}

/// The text of an optional string slice.
pub open spec fn slice_text(o: Option<&str>) -> Option<Seq<char>> {
    match o {
        Some(s) => Some(s@),
        None => None,
    }
}

/// Completes a call whose method is known, given what the proxy URL parser
/// said of the proxy: `rejection` is its complaint, if it had one.
pub fn attach_proxy(
    url: &str,
    method: Method,
    headers: Option<HashMap<String, String>>,
    body: Option<String>,
    proxy: Option<&str>,
    rejection: Option<String>,
) -> (r: Result<ForwardRequest, ForwardError>)
    ensures
        plan_view(r) == with_proxy(
            url@,
            method,
            headers,
            text_of(body),
            slice_text(proxy),
            text_of(rejection),
        ),
{
    match proxy {
        Some(p) => match rejection {
            Some(cause) => Err(
                ForwardError::InvalidProxyUrl(
                    String::from_str("Invalid proxy URL: ").concat(cause.as_str()),
                ),
            ),
            None => Ok(
                ForwardRequest {
                    url: url.to_owned(),
                    method,
                    headers,
                    body,
                    proxy: Some(p.to_owned()),
                    follow_redirects: false,
                },
            ),
        },
        None => Ok(
            ForwardRequest {
                url: url.to_owned(),
                method,
                headers,
                body,
                proxy: None,
                follow_redirects: false,
            },
        ),
    }
}

/// Plans one HTTPS request with optional headers, body, and proxy.
///
/// Nothing is sent. A method outside get, post, put, head and delete (in
/// any case) is refused with `UnsupportedMethod` whatever the other
/// arguments are; then a proxy that the proxy URL parser rejects is refused
/// with `InvalidProxyUrl`. Otherwise the call is returned with the
/// caller's URL, headers, body and proxy as they were given.
pub fn make_https_request(
    url: &str,
    method: &str,
    headers: Option<HashMap<String, String>>,
    body: Option<String>,
    proxy: Option<&str>,
) -> (r: Result<ForwardRequest, ForwardError>)
    ensures
        plan_view(r) == planned(url@, method@, headers, text_of(body), slice_text(proxy)),
        method_of(method@) is None ==> r is Err && r->Err_0@ == ForwardErrorView::UnsupportedMethod,
        method_of(method@) is Some && proxy is None ==> r is Ok,
        r is Ok ==> method_of(method@) == Some(r->Ok_0.method) && !r->Ok_0.follow_redirects,
{
    match parse_method(method) {
        None => Err(ForwardError::UnsupportedMethod),
        Some(m) => {
            let rejection = match proxy {
                Some(p) => check_proxy_url(p),
                None => None,
            };
            attach_proxy(url, m, headers, body, proxy, rejection)
        },
    }
}

/// What the transport hands back of a response: its headers in the order
/// in which the response gave them, each value as text (empty where it is
/// no text), and the bytes of its body.
#[derive(Clone, Debug, PartialEq, Eq)]
pub struct RawResponse {
    pub headers: Vec<(String, String)>,
    pub body: Vec<u8>,
}

/// A [`RawResponse`] with its strings as texts.
pub struct RawResponseView {
    pub headers: Seq<(Seq<char>, Seq<char>)>,
    pub body: Seq<u8>,
}

impl View for RawResponse {
    type V = RawResponseView;

    open spec fn view(&self) -> RawResponseView {
        RawResponseView { headers: text_pairs(self.headers@), body: self.body@ }
    }
}

/// How the one outbound call ended. The three failures hold the
/// description of the underlying cause.
#[derive(Clone, Debug, PartialEq, Eq)]
pub enum TransportOutcome {
    /// The HTTP client could not be built.
    ClientBuildFailed(String),
    /// The request could not be sent, or no response came.
    SendFailed(String),
    /// A response came, but its body could not be read to the end.
    BodyReadFailed(String),
    /// A response came and was read.
    Responded(RawResponse),
}

/// A [`TransportOutcome`] with its strings as texts.
pub enum TransportOutcomeView {
    ClientBuildFailed(Seq<char>),
    SendFailed(Seq<char>),
    BodyReadFailed(Seq<char>),
    Responded(RawResponseView),
}

impl View for TransportOutcome {
    type V = TransportOutcomeView;

    open spec fn view(&self) -> TransportOutcomeView {
        match *self {
            TransportOutcome::ClientBuildFailed(c) => TransportOutcomeView::ClientBuildFailed(c@),
            TransportOutcome::SendFailed(c) => TransportOutcomeView::SendFailed(c@),
            TransportOutcome::BodyReadFailed(c) => TransportOutcomeView::BodyReadFailed(c@),
            TransportOutcome::Responded(response) => TransportOutcomeView::Responded(response@),
        }
    }
}

/// The normalized result of a forward.
#[derive(Clone, Debug, PartialEq, Eq)]
pub struct ForwardResult {
    /// The body as text.
    pub body: String,
    /// The value of every `Set-Cookie` header, in response order.
    pub set_cookie_headers: Vec<String>,
    /// One entry for each other header name, in lower case, with the value
    /// of the name's last occurrence.
    pub headers: Vec<(String, String)>,
    /// The value of the first `Location` header.
    pub location_header: Option<String>,
}

/// A [`ForwardResult`] with its strings as texts.
pub struct ForwardResultView {
    pub body: Seq<char>,
    pub set_cookie_headers: Seq<Seq<char>>,
    pub headers: Seq<(Seq<char>, Seq<char>)>,
    pub location_header: Option<Seq<char>>,
}

impl View for ForwardResult {
    type V = ForwardResultView;

    open spec fn view(&self) -> ForwardResultView {
        ForwardResultView {
            body: self.body@,
            set_cookie_headers: texts(self.set_cookie_headers@),
            headers: text_pairs(self.headers@),
            location_header: text_of(self.location_header),
        }
    }
}

/// The view of an attempt to forward.
pub open spec fn result_view(r: Result<ForwardResult, ForwardError>) -> Result<
    ForwardResultView,
    ForwardErrorView,
> {
    match r {
        Ok(result) => Ok(result@),
        Err(e) => Err(e@),
    }
}

/// The view of an attempt to decode a body: the text, or the description of
/// what went wrong.
pub open spec fn decoded_view(r: Result<String, String>) -> Result<Seq<char>, Seq<char>> {
    match r {
        Ok(text) => Ok(text@),
        Err(cause) => Err(cause@),
    }
}

/// What the gzip decoder makes of `bytes`: the text that they decompress
/// to, or its description of why they do not decompress to text.
pub uninterp spec fn gunzip_text(bytes: Seq<u8>) -> Result<Seq<char>, Seq<char>>;

/// Runs `bytes` through `flate2::read::GzDecoder` and reads the output to
/// its end as UTF-8 text. The outcome depends on `bytes` alone; the contract
/// gives it its name and says nothing of which bytes decompress.
#[verifier::external_body]
fn gunzip(bytes: &[u8]) -> (decoded: Result<String, String>)
    ensures
        decoded_view(decoded) == gunzip_text(bytes@),
{
    let mut decoder = flate2::read::GzDecoder::new(bytes);
    let mut text = String::new();
    match std::io::Read::read_to_string(&mut decoder, &mut text) {
        Ok(_) => Ok(text),
        Err(e) => Err(e.to_string()),
    }
}

/// The text that `bytes` stand for as UTF-8 when each invalid sequence is
/// replaced by the replacement character.
pub uninterp spec fn utf8_lossy(bytes: Seq<u8>) -> Seq<char>;

/// Decodes `bytes` with `String::from_utf8_lossy`. The contract gives the
/// text its name and adds what the function promises of valid UTF-8: it is
/// decoded as it stands.
#[verifier::external_body]
fn decode_lossy(bytes: &[u8]) -> (text: String)
    ensures
        text@ == utf8_lossy(bytes@),
        valid_utf8(bytes@) ==> text@ == decode_utf8(bytes@),
{
    String::from_utf8_lossy(bytes).into_owned()
}

/// The characters `gzip`.
pub open spec fn gzip_token() -> Seq<char> {
    seq!['g', 'z', 'i', 'p']
}

/// The response says that its body is gzip-compressed: the value of its
/// last `Content-Encoding` header holds `gzip`, in any case.
pub open spec fn is_gzip(headers: Seq<(Seq<char>, Seq<char>)>) -> bool {
    match last_value(headers, content_encoding_name()) {
        Some(encoding) => contains_text(lowercase(encoding), gzip_token()),
        None => false,
    }
}

/// The body of a response as text: decompressed where the response says it
/// is gzip-compressed, else decoded as UTF-8 with invalid sequences replaced.
pub open spec fn body_text(headers: Seq<(Seq<char>, Seq<char>)>, body: Seq<u8>) -> Result<
    Seq<char>,
    Seq<char>,
> {
    if is_gzip(headers) {
        gunzip_text(body)
    } else {
        Ok(utf8_lossy(body))
    }
}

/// The result of a forward whose response had the headers `headers` and
/// whose body was decoded as `decoded`.
pub open spec fn normalized(
    headers: Seq<(Seq<char>, Seq<char>)>,
    decoded: Result<Seq<char>, Seq<char>>,
) -> Result<ForwardResultView, ForwardErrorView> {
    match decoded {
        Ok(text) => Ok(
            ForwardResultView {
                body: text,
                set_cookie_headers: values_of(headers, set_cookie_name()),
                headers: collapsed(headers),
                location_header: first_value(headers, location_name()),
            },
        ),
        Err(cause) => Err(
            ForwardErrorView::DecompressionError("Failed to decompress GZIP: "@ + cause),
        ),
    }
}

/// What a forward comes to, given how its one outbound call ended.
pub open spec fn concluded(outcome: TransportOutcomeView) -> Result<
    ForwardResultView,
    ForwardErrorView,
> {
    match outcome {
        TransportOutcomeView::ClientBuildFailed(cause) => Err(
            ForwardErrorView::ClientBuildError("Failed to build client: "@ + cause),
        ),
        TransportOutcomeView::SendFailed(cause) => Err(
            ForwardErrorView::RequestFailed("Request failed: "@ + cause),
        ),
        TransportOutcomeView::BodyReadFailed(cause) => Err(
            ForwardErrorView::RequestFailed("Failed to read response bytes: "@ + cause),
        ),
        TransportOutcomeView::Responded(response) => normalized(
            response.headers,
            body_text(response.headers, response.body),
        ),
    }
}

/// Whether the response with the headers `headers` says that its body is
/// gzip-compressed.
pub fn says_gzip(headers: &Vec<(String, String)>) -> (gzip: bool)
    ensures
        gzip == is_gzip(text_pairs(headers@)),
{
    proof {
        lemma_header_names();
        reveal_strlit("gzip");
        assert("gzip"@ =~= gzip_token());
        assert(lowercase(gzip_token()) =~= gzip_token());
    }
    match last_header(headers, "content-encoding") {
        Some(encoding) => contains_ignoring_case(encoding.as_str(), "gzip"),
        None => false,
    }
}

/// The body of a response as text, or the description of why it could not
/// be decompressed.
pub fn decode_body(headers: &Vec<(String, String)>, body: &Vec<u8>) -> (decoded: Result<
    String,
    String,
>)
    ensures
        decoded_view(decoded) == body_text(text_pairs(headers@), body@),
        !is_gzip(text_pairs(headers@)) && valid_utf8(body@) ==> decoded_view(decoded) == Ok::<
            Seq<char>,
            Seq<char>,
        >(decode_utf8(body@)),
{
    if says_gzip(headers) {
        gunzip(body.as_slice())
    } else {
        Ok(decode_lossy(body.as_slice()))
    }
}

/// The result of a forward, given the headers of the response and its body
/// as it was decoded.
pub fn normalize_response(headers: &Vec<(String, String)>, decoded: Result<String, String>) -> (r:
    Result<ForwardResult, ForwardError>)
    ensures
        result_view(r) == normalized(text_pairs(headers@), decoded_view(decoded)),
{
    proof {
        lemma_header_names();
    }
    match decoded {
        Ok(body) => Ok(
            ForwardResult {
                body,
                set_cookie_headers: header_values(headers, "set-cookie"),
                headers: collapse_headers(headers),
                location_header: first_header(headers, "location"),
            },
        ),
        Err(cause) => Err(
            ForwardError::DecompressionError(
                String::from_str("Failed to decompress GZIP: ").concat(cause.as_str()),
            ),
        ),
    }
}

/// Makes the result of a forward of how its one outbound call ended.
///
/// A failure of the transport is classified and described. A response is
/// normalized: every `Set-Cookie` value in order, the other headers as a
/// single-valued table, the first `Location`, and the body as text.
pub fn read_https_response(outcome: TransportOutcome) -> (r: Result<ForwardResult, ForwardError>)
    ensures
        result_view(r) == concluded(outcome@),
        outcome@ matches TransportOutcomeView::Responded(response) ==> (!is_gzip(response.headers)
            && valid_utf8(response.body) ==> r is Ok && r->Ok_0.body@ == decode_utf8(
            response.body,
        )),
{
    match outcome {
        TransportOutcome::ClientBuildFailed(cause) => Err(
            ForwardError::ClientBuildError(
                String::from_str("Failed to build client: ").concat(cause.as_str()),
            ),
        ),
        TransportOutcome::SendFailed(cause) => Err(
            ForwardError::RequestFailed(
                String::from_str("Request failed: ").concat(cause.as_str()),
            ),
        ),
        TransportOutcome::BodyReadFailed(cause) => Err(
            ForwardError::RequestFailed(
                String::from_str("Failed to read response bytes: ").concat(cause.as_str()),
            ),
        ),
        TransportOutcome::Responded(response) => {
            let decoded = decode_body(&response.headers, &response.body);
            normalize_response(&response.headers, decoded)
        },
    }
}

/// What can come of a response: a response that does not say gzip always
/// gives a result; one that says gzip gives a result exactly where the
/// decoder gives text, and a `DecompressionError` with the decoder's
/// complaint where it does not. No response gives any other error.
pub proof fn lemma_response_outcomes(response: RawResponseView)
    ensures
        !is_gzip(response.headers) ==> concluded(TransportOutcomeView::Responded(response)) is Ok,
        is_gzip(response.headers) ==> match gunzip_text(response.body) {
            Ok(text) => concluded(TransportOutcomeView::Responded(response)) is Ok && concluded(
                TransportOutcomeView::Responded(response),
            )->Ok_0.body == text,
            Err(cause) => concluded(TransportOutcomeView::Responded(response)) == Err::<
                ForwardResultView,
                ForwardErrorView,
            >(ForwardErrorView::DecompressionError("Failed to decompress GZIP: "@ + cause)),
        },
{
}

} // verus!
