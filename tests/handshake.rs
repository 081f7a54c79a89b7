use http_types::{Method, Request, StatusCode};
use ws_handshake::{check_request_headers, convert_key, encode_digest, HandshakeError};

fn request(headers: &[(&str, &str)]) -> Request {
    let mut req = Request::new(Method::Get, "http://localhost/chat");
    for (name, value) in headers {
        req.append_header(*name, *value);
    }
    req
}

fn valid_headers() -> Vec<(&'static str, &'static str)> {
    vec![
        ("Connection", "Upgrade"),
        ("Upgrade", "websocket"),
        ("Sec-WebSocket-Version", "13"),
        ("Sec-WebSocket-Key", "dGhlIHNhbXBsZSBub25jZQ=="),
    ]
}

fn without(name: &str) -> Request {
    let headers: Vec<(&str, &str)> =
        valid_headers().into_iter().filter(|(n, _)| *n != name).collect();
    request(&headers)
}

fn with_extra(extra: &[(&'static str, &'static str)]) -> Request {
    let mut headers = valid_headers();
    headers.extend_from_slice(extra);
    request(&headers)
}

fn missing_name(req: &Request) -> &'static str {
    match check_request_headers(req) {
        Err(HandshakeError::MissingHeader(h)) => h,
        Err(e) => panic!("unexpected error {:?}", e),
        Ok(_) => panic!("request was accepted"),
    }
}

#[test]
fn convert_key_rfc_example() {
    assert_eq!(convert_key(b"dGhlIHNhbXBsZSBub25jZQ=="), "s3pPLMBiTxaQ9kYGzzhZRbK+xOo=");
}

#[test]
fn convert_key_is_deterministic() {
    let a = convert_key(b"x3JJHMbDL1EzLkh9GBhXDw==");
    let b = convert_key(b"x3JJHMbDL1EzLkh9GBhXDw==");
    assert_eq!(a, b);
    assert_eq!(a, "HSmrc0sMlYUkAGmm5OPpG2HaGWk=");
}

#[test]
fn convert_key_has_accept_shape() {
    let token = convert_key(b"");
    assert_eq!(token.len(), 28);
    assert!(token.ends_with('='));
    assert_ne!(convert_key(b""), convert_key(b"a"));
}

#[test]
fn encode_digest_pads() {
    assert_eq!(encode_digest(b"Man"), "TWFu");
    assert_eq!(encode_digest(b"Ma"), "TWE=");
    assert_eq!(encode_digest(b"M"), "TQ==");
    assert_eq!(encode_digest(b""), "");
    assert_eq!(encode_digest(&[0xfb, 0xff]), "+/8=");
}

#[test]
fn valid_request_is_accepted() {
    let req = request(&valid_headers());
    let info = check_request_headers(&req).unwrap();
    assert_eq!(info.key(), "dGhlIHNhbXBsZSBub25jZQ==");
}

#[test]
fn missing_connection() {
    assert_eq!(missing_name(&without("Connection")), "Connection");
}

#[test]
fn missing_upgrade() {
    assert_eq!(missing_name(&without("Upgrade")), "Upgrade");
}

#[test]
fn missing_version() {
    assert_eq!(missing_name(&without("Sec-WebSocket-Version")), "Sec-WebSocket-Version");
}

#[test]
fn missing_key() {
    assert_eq!(missing_name(&without("Sec-WebSocket-Key")), "Sec-WebSocket-Key");
}

#[test]
fn missing_key_with_extras_still_reported() {
    let req = request(&[
        ("Connection", "Upgrade"),
        ("Upgrade", "websocket"),
        ("Sec-WebSocket-Version", "13"),
        ("Sec-WebSocket-Protocol", "chat"),
    ]);
    assert_eq!(missing_name(&req), "Sec-WebSocket-Key");
}

#[test]
fn connection_keep_alive_is_invalid() {
    let req = request(&[
        ("Connection", "keep-alive"),
        ("Upgrade", "websocket"),
        ("Sec-WebSocket-Version", "13"),
        ("Sec-WebSocket-Key", "abc"),
    ]);
    match check_request_headers(&req) {
        Err(HandshakeError::InvalidHeaderValue { header, expected, found }) => {
            assert_eq!(header, "Connection");
            assert_eq!(expected, Some("Upgrade"));
            assert_eq!(found, "keep-alive");
        }
        _ => panic!("expected an invalid Connection value"),
    }
}

#[test]
fn last_connection_value_decides() {
    let req = with_extra(&[("Connection", "keep-alive")]);
    assert!(check_request_headers(&req).is_err());
    let req = request(&[
        ("Connection", "keep-alive"),
        ("Connection", "Upgrade"),
        ("Upgrade", "websocket"),
        ("Sec-WebSocket-Version", "13"),
        ("Sec-WebSocket-Key", "abc"),
    ]);
    assert!(check_request_headers(&req).is_ok());
}

#[test]
fn values_compare_case_sensitively() {
    let req = request(&[
        ("Connection", "upgrade"),
        ("Upgrade", "websocket"),
        ("Sec-WebSocket-Version", "13"),
        ("Sec-WebSocket-Key", "abc"),
    ]);
    match check_request_headers(&req) {
        Err(HandshakeError::InvalidHeaderValue { header, found, .. }) => {
            assert_eq!(header, "Connection");
            assert_eq!(found, "upgrade");
        }
        _ => panic!("expected an invalid Connection value"),
    }
}

#[test]
fn header_names_are_case_insensitive() {
    let req = request(&[
        ("connection", "Upgrade"),
        ("UPGRADE", "websocket"),
        ("sec-websocket-version", "13"),
        ("SEC-WEBSOCKET-KEY", "abc"),
    ]);
    assert_eq!(check_request_headers(&req).unwrap().key(), "abc");
}

#[test]
fn invalid_upgrade_value() {
    let req = request(&[
        ("Connection", "Upgrade"),
        ("Upgrade", "h2c"),
        ("Sec-WebSocket-Version", "13"),
        ("Sec-WebSocket-Key", "abc"),
    ]);
    match check_request_headers(&req) {
        Err(HandshakeError::InvalidHeaderValue { header, expected, found }) => {
            assert_eq!(header, "Upgrade");
            assert_eq!(expected, Some("websocket"));
            assert_eq!(found, "h2c");
        }
        _ => panic!("expected an invalid Upgrade value"),
    }
}

#[test]
fn invalid_version_value() {
    let req = request(&[
        ("Connection", "Upgrade"),
        ("Upgrade", "websocket"),
        ("Sec-WebSocket-Version", "8"),
        ("Sec-WebSocket-Key", "abc"),
    ]);
    match check_request_headers(&req) {
        Err(HandshakeError::InvalidHeaderValue { header, expected, found }) => {
            assert_eq!(header, "Sec-WebSocket-Version");
            assert_eq!(expected, Some("13"));
            assert_eq!(found, "8");
        }
        _ => panic!("expected an invalid version"),
    }
}

#[test]
fn connection_is_checked_before_upgrade() {
    let req = request(&[("Sec-WebSocket-Version", "13"), ("Sec-WebSocket-Key", "abc")]);
    assert_eq!(missing_name(&req), "Connection");
}

#[test]
fn invalid_connection_reported_before_missing_key() {
    let req = request(&[("Connection", "close")]);
    match check_request_headers(&req) {
        Err(HandshakeError::InvalidHeaderValue { header, .. }) => assert_eq!(header, "Connection"),
        _ => panic!("expected an invalid Connection value"),
    }
}

#[test]
fn extensions_with_parameters_are_dropped() {
    let req = with_extra(&[(
        "Sec-WebSocket-Extensions",
        "permessage-deflate; client_max_window_bits, foo",
    )]);
    let info = check_request_headers(&req).unwrap();
    assert_eq!(info.extensions(), &vec!["foo"]);
}

#[test]
fn extensions_keep_order_and_duplicates() {
    let req = with_extra(&[
        ("Sec-WebSocket-Extensions", " a ,b"),
        ("Sec-WebSocket-Extensions", "a, c;x=1 ,d"),
    ]);
    let info = check_request_headers(&req).unwrap();
    assert_eq!(info.extensions(), &vec!["a", "b", "a", "d"]);
}

#[test]
fn protocols_are_split_and_trimmed() {
    let req = with_extra(&[("Sec-WebSocket-Protocol", "chat, superchat")]);
    let info = check_request_headers(&req).unwrap();
    assert_eq!(info.protocols(), &vec!["chat", "superchat"]);
}

#[test]
fn protocols_keep_parameters_and_order() {
    let req = with_extra(&[
        ("Sec-WebSocket-Protocol", "v2;x, chat"),
        ("Sec-WebSocket-Protocol", "chat,,"),
    ]);
    let info = check_request_headers(&req).unwrap();
    assert_eq!(info.protocols(), &vec!["v2;x", "chat", "chat", "", ""]);
}

#[test]
fn last_key_is_used() {
    let req = with_extra(&[("Sec-WebSocket-Key", "second"), ("Sec-WebSocket-Key", "third")]);
    let info = check_request_headers(&req).unwrap();
    assert_eq!(info.key(), "third");
}

#[test]
fn empty_key_is_accepted() {
    let req = request(&[
        ("Connection", "Upgrade"),
        ("Upgrade", "websocket"),
        ("Sec-WebSocket-Version", "13"),
        ("Sec-WebSocket-Key", ""),
    ]);
    assert_eq!(check_request_headers(&req).unwrap().key(), "");
}

#[test]
fn absent_lists_are_empty() {
    let req = request(&valid_headers());
    let info = check_request_headers(&req).unwrap();
    assert!(info.extensions().is_empty());
    assert!(info.protocols().is_empty());
}

#[test]
fn response_has_status_and_three_headers() {
    let req = request(&valid_headers());
    let info = check_request_headers(&req).unwrap();
    let res = info.make_response();
    assert_eq!(res.status(), StatusCode::SwitchingProtocols);
    assert_eq!(res.header_names().count(), 3);
    assert_eq!(res.header("Upgrade").unwrap().last().as_str(), "websocket");
    assert_eq!(res.header("Connection").unwrap().last().as_str(), "Upgrade");
    let accept = res.header("Sec-WebSocket-Accept").unwrap();
    assert_eq!(accept.iter().count(), 1);
    assert_eq!(accept.last().as_str(), "s3pPLMBiTxaQ9kYGzzhZRbK+xOo=");
    assert_eq!(accept.last().as_str(), convert_key(info.key().as_bytes()));
}

#[test]
fn missing_header_message() {
    let e = HandshakeError::MissingHeader("Upgrade");
    assert_eq!(e.message(), "Missing required header `Upgrade`");
}

#[test]
fn invalid_value_message() {
    let e = HandshakeError::InvalidHeaderValue {
        header: "Connection",
        expected: Some("Upgrade"),
        found: "keep-alive".to_string(),
    };
    assert_eq!(
        e.message(),
        "Invalid value `keep-alive` for header `Connection`, expected `Upgrade`"
    );
    let e = HandshakeError::InvalidHeaderValue {
        header: "Sec-WebSocket-Key",
        expected: None,
        found: "x".to_string(),
    };
    assert_eq!(e.message(), "Invalid value `x` for header `Sec-WebSocket-Key`");
}
