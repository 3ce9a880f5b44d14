use ip_proxy_pool::request::{decode_body, normalize_response, parse_method};
use ip_proxy_pool::{
    make_https_request, read_https_response, ForwardError, ForwardResult, Method, RawResponse,
    TransportOutcome,
};
use std::collections::HashMap;
use std::io::Write;

fn pairs(items: &[(&str, &str)]) -> Vec<(String, String)> {
    items.iter().map(|(n, v)| (n.to_string(), v.to_string())).collect()
}

fn respond(headers: &[(&str, &str)], body: &[u8]) -> Result<ForwardResult, ForwardError> {
    read_https_response(TransportOutcome::Responded(RawResponse {
        headers: pairs(headers),
        body: body.to_vec(),
    }))
}

fn gzip(text: &[u8]) -> Vec<u8> {
    let mut encoder = flate2::write::GzEncoder::new(Vec::new(), flate2::Compression::default());
    encoder.write_all(text).expect("write");
    encoder.finish().expect("finish")
}

#[test]
fn patch_is_unsupported() {
    let r = make_https_request("http://example.test/", "PATCH", None, None, None);
    assert_eq!(r, Err(ForwardError::UnsupportedMethod));
}

#[test]
fn other_method_words_are_unsupported() {
    for word in ["", "options", "TRACE", "connect", "gets", "ge", " get", "get ", "g\u{0}et", "pošt"] {
        let r = make_https_request("http://example.test/", word, None, None, None);
        assert_eq!(r, Err(ForwardError::UnsupportedMethod), "method {:?}", word);
    }
}

#[test]
fn unsupported_method_is_refused_before_the_proxy_is_looked_at() {
    let r = make_https_request("http://example.test/", "PATCH", None, None, Some("ftp://nowhere"));
    assert_eq!(r, Err(ForwardError::UnsupportedMethod));
}

#[test]
fn unsupported_method_has_its_description() {
    assert_eq!(ForwardError::UnsupportedMethod.description(), "Unsupported HTTP method");
}

#[test]
fn the_five_methods_are_parsed_in_any_case() {
    let cases = [
        ("get", Method::Get),
        ("GET", Method::Get),
        ("Get", Method::Get),
        ("post", Method::Post),
        ("POST", Method::Post),
        ("pOsT", Method::Post),
        ("put", Method::Put),
        ("PUT", Method::Put),
        ("head", Method::Head),
        ("HEAD", Method::Head),
        ("delete", Method::Delete),
        ("DELETE", Method::Delete),
        ("DeLeTe", Method::Delete),
    ];
    for (word, method) in cases {
        assert_eq!(parse_method(word), Some(method), "method {:?}", word);
    }
    assert_eq!(parse_method("patch"), None);
}

#[test]
fn plain_get_is_planned_as_given() {
    let call = make_https_request("http://example.test/", "get", None, None, None).expect("plan");
    assert_eq!(call.url, "http://example.test/");
    assert_eq!(call.method, Method::Get);
    assert_eq!(call.headers, None);
    assert_eq!(call.body, None);
    assert_eq!(call.proxy, None);
    assert!(!call.follow_redirects);
}

#[test]
fn headers_body_and_proxy_are_carried_verbatim() {
    let mut headers = HashMap::new();
    headers.insert("X-Token".to_string(), "abc".to_string());
    headers.insert("accept".to_string(), "*/*".to_string());
    let call = make_https_request(
        "https://example.test/submit?x=1",
        "Post",
        Some(headers.clone()),
        Some("{\"k\": 1}".to_string()),
        Some("http://123.45.67.89:8080"),
    )
    .expect("plan");
    assert_eq!(call.url, "https://example.test/submit?x=1");
    assert_eq!(call.method, Method::Post);
    assert_eq!(call.headers, Some(headers));
    assert_eq!(call.body, Some("{\"k\": 1}".to_string()));
    assert_eq!(call.proxy, Some("http://123.45.67.89:8080".to_string()));
    assert!(!call.follow_redirects);
}

#[test]
fn proxy_without_scheme_is_accepted() {
    let call = make_https_request("http://example.test/", "get", None, None, Some("10.0.0.1:3128"))
        .expect("plan");
    assert_eq!(call.proxy, Some("10.0.0.1:3128".to_string()));
}

#[test]
fn malformed_proxy_is_refused_with_the_parser_s_words() {
    for proxy in ["ftp://nowhere", "", "http://", "not a proxy"] {
        let cause = reqwest::Proxy::http(proxy).expect_err("the parser rejects it").to_string();
        let r = make_https_request("http://example.test/", "get", None, None, Some(proxy));
        assert_eq!(
            r,
            Err(ForwardError::InvalidProxyUrl(format!("Invalid proxy URL: {}", cause))),
            "proxy {:?}",
            proxy
        );
    }
}

#[test]
fn unknown_proxy_scheme_is_described() {
    let r = make_https_request("http://example.test/", "get", None, None, Some("ftp://nowhere"));
    let e = r.expect_err("refused");
    assert_eq!(e.description(), "Invalid proxy URL: builder error: unknown proxy scheme");
}

#[test]
fn plain_response_becomes_a_result() {
    let call = make_https_request("http://example.test/", "get", None, None, None).expect("plan");
    assert_eq!(call.method, Method::Get);
    // the transport answers 200 with the body "hello" and no Content-Encoding
    let result = respond(&[], b"hello").expect("result");
    assert_eq!(result.body, "hello");
    assert_eq!(result.set_cookie_headers, Vec::<String>::new());
    assert_eq!(result.headers, Vec::<(String, String)>::new());
    assert_eq!(result.location_header, None);
}

#[test]
fn gzip_body_is_decompressed() {
    let text = "The quick brown fox jumps over the lazy dog. Zażółć gęślą jaźń.";
    let result = respond(&[("Content-Encoding", "gzip")], &gzip(text.as_bytes())).expect("result");
    assert_eq!(result.body, text);
    assert_eq!(result.headers, pairs(&[("content-encoding", "gzip")]));
}

#[test]
fn gzip_is_found_in_any_case_and_within_a_list() {
    let packed = gzip(b"packed");
    for value in ["GZIP", "GZip", "x-gzip", "deflate, gzip", "gzip;q=1.0"] {
        let result = respond(&[("content-encoding", value)], &packed).expect("result");
        assert_eq!(result.body, "packed", "encoding {:?}", value);
    }
}

#[test]
fn corrupted_gzip_is_a_decompression_error() {
    let mut packed = gzip(b"some text that is long enough to be worth compressing");
    let middle = packed.len() / 2;
    for byte in packed[10..middle].iter_mut() {
        *byte ^= 0xff;
    }
    match respond(&[("Content-Encoding", "gzip")], &packed) {
        Err(ForwardError::DecompressionError(d)) => {
            assert!(d.starts_with("Failed to decompress GZIP: "), "description {:?}", d)
        }
        other => panic!("expected a decompression error, got {:?}", other),
    }
}

#[test]
fn bytes_that_are_no_gzip_are_a_decompression_error() {
    let r = respond(&[("Content-Encoding", "gzip")], b"hello, this is no gzip");
    assert_eq!(
        r,
        Err(ForwardError::DecompressionError(
            "Failed to decompress GZIP: invalid gzip header".to_string()
        ))
    );
}

#[test]
fn gzip_of_bytes_that_are_no_text_is_a_decompression_error() {
    let r = respond(&[("Content-Encoding", "gzip")], &gzip(&[0xff, 0xfe, 0xfd]));
    assert_eq!(
        r,
        Err(ForwardError::DecompressionError(
            "Failed to decompress GZIP: stream did not contain valid UTF-8".to_string()
        ))
    );
}

#[test]
fn last_content_encoding_decides() {
    let packed = gzip(b"twice");
    let result =
        respond(&[("content-encoding", "identity"), ("content-encoding", "gzip")], &packed)
            .expect("result");
    assert_eq!(result.body, "twice");
    let plain = respond(&[("content-encoding", "gzip"), ("content-encoding", "identity")], b"raw")
        .expect("result");
    assert_eq!(plain.body, "raw");
}

#[test]
fn other_encodings_leave_the_bytes_as_they_are() {
    let result = respond(&[("Content-Encoding", "br")], b"not decoded").expect("result");
    assert_eq!(result.body, "not decoded");
}

#[test]
fn invalid_utf8_is_replaced_not_refused() {
    let result = respond(&[], &[b'a', 0xff, b'b', 0xc3, 0x28]).expect("result");
    assert_eq!(result.body, "a\u{fffd}b\u{fffd}(");
}

#[test]
fn valid_utf8_is_decoded_as_it_stands() {
    let result = respond(&[], "héllo €".as_bytes()).expect("result");
    assert_eq!(result.body, "héllo €");
}

#[test]
fn empty_body_is_an_empty_text() {
    let result = respond(&[("content-length", "0")], b"").expect("result");
    assert_eq!(result.body, "");
}

#[test]
fn every_set_cookie_is_kept_in_order() {
    let result = respond(
        &[
            ("set-cookie", "a=1"),
            ("content-type", "text/plain"),
            ("Set-Cookie", "b=2; Path=/"),
            ("SET-COOKIE", "a=1"),
        ],
        b"",
    )
    .expect("result");
    assert_eq!(result.set_cookie_headers, vec!["a=1", "b=2; Path=/", "a=1"]);
    // the table holds the other headers only
    assert_eq!(result.headers, pairs(&[("content-type", "text/plain")]));
}

#[test]
fn repeated_header_keeps_its_last_value_at_its_first_place() {
    let result = respond(
        &[
            ("Via", "1.1 first"),
            ("Content-Type", "text/html"),
            ("via", "1.1 second"),
            ("Server", "s"),
            ("VIA", "1.1 third"),
        ],
        b"",
    )
    .expect("result");
    assert_eq!(
        result.headers,
        pairs(&[("via", "1.1 third"), ("content-type", "text/html"), ("server", "s")])
    );
}

#[test]
fn first_location_is_surfaced() {
    let result = respond(
        &[("Location", "/first"), ("location", "/second"), ("x", "y")],
        b"",
    )
    .expect("result");
    assert_eq!(result.location_header, Some("/first".to_string()));
    assert_eq!(result.headers, pairs(&[("location", "/second"), ("x", "y")]));
}

#[test]
fn redirect_is_returned_as_it_is() {
    // a 302 is a response like any other: nothing is followed
    let result = respond(&[("location", "https://example.test/next")], b"moved").expect("result");
    assert_eq!(result.location_header, Some("https://example.test/next".to_string()));
    assert_eq!(result.body, "moved");
}

#[test]
fn header_without_text_value_is_kept_as_empty() {
    let result = respond(&[("x-binary", ""), ("set-cookie", "")], b"").expect("result");
    assert_eq!(result.headers, pairs(&[("x-binary", "")]));
    assert_eq!(result.set_cookie_headers, vec![""]);
}

#[test]
fn transport_failures_are_classified() {
    assert_eq!(
        read_https_response(TransportOutcome::ClientBuildFailed("no tls".to_string())),
        Err(ForwardError::ClientBuildError("Failed to build client: no tls".to_string()))
    );
    assert_eq!(
        read_https_response(TransportOutcome::SendFailed("connection refused".to_string())),
        Err(ForwardError::RequestFailed("Request failed: connection refused".to_string()))
    );
    assert_eq!(
        read_https_response(TransportOutcome::BodyReadFailed("reset".to_string())),
        Err(ForwardError::RequestFailed("Failed to read response bytes: reset".to_string()))
    );
}

#[test]
fn descriptions_are_what_the_errors_hold() {
    assert_eq!(ForwardError::InvalidProxyUrl("a".to_string()).description(), "a");
    assert_eq!(ForwardError::ClientBuildError("b".to_string()).description(), "b");
    assert_eq!(ForwardError::RequestFailed("c".to_string()).description(), "c");
    assert_eq!(ForwardError::DecompressionError("d".to_string()).description(), "d");
}

#[test]
fn decode_body_reports_the_decoder_s_complaint() {
    let headers = pairs(&[("content-encoding", "gzip")]);
    assert_eq!(decode_body(&headers, &gzip(b"ok")), Ok("ok".to_string()));
    assert_eq!(
        decode_body(&headers, &b"definitely not gzip".to_vec()),
        Err("invalid gzip header".to_string())
    );
    assert_eq!(decode_body(&Vec::new(), &b"ok".to_vec()), Ok("ok".to_string()));
}

#[test]
fn normalize_response_takes_the_decoded_body() {
    let headers = pairs(&[("set-cookie", "s=1"), ("location", "/l")]);
    let result = normalize_response(&headers, Ok("text".to_string())).expect("result");
    assert_eq!(
        result,
        ForwardResult {
            body: "text".to_string(),
            set_cookie_headers: vec!["s=1".to_string()],
            headers: pairs(&[("location", "/l")]),
            location_header: Some("/l".to_string()),
        }
    );
    assert_eq!(
        normalize_response(&headers, Err("bad".to_string())),
        Err(ForwardError::DecompressionError("Failed to decompress GZIP: bad".to_string()))
    );
}
