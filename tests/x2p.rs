use anon_targets::x2p::{classify_response, RequestUri, X2PAgentError};
use http::header::HeaderName;
use http::{HeaderMap, HeaderValue};

fn uri() -> RequestUri {
    RequestUri::new(Some("example.com".to_string()), "/a/b".to_string())
}

fn headers(pairs: &[(&'static str, &'static [u8])]) -> HeaderMap {
    let mut h = HeaderMap::new();
    for (k, v) in pairs {
        h.append(HeaderName::from_static(k), HeaderValue::from_bytes(v).unwrap());
    }
    h
}

#[test]
fn deny_decision_is_access_denied() {
    let h = headers(&[("x-fb-validated-x2pauth-decision", b"deny")]);
    assert_eq!(
        X2PAgentError::from_headers(&uri(), &h),
        Some(X2PAgentError::AccessDenied { host: "example.com".to_string(), path: "/a/b".to_string() })
    );
}

#[test]
fn deny_wins_over_typed_error() {
    let h = headers(&[
        ("x-x2pagentd-error-type", b"FORBIDDEN_HOST"),
        ("x-x2pagentd-error-msg", b"nope"),
        ("x-fb-validated-x2pauth-decision", b"deny"),
    ]);
    assert!(matches!(
        X2PAgentError::from_headers(&uri(), &h),
        Some(X2PAgentError::AccessDenied { .. })
    ));
}

#[test]
fn forbidden_host_with_message() {
    let h = headers(&[
        ("x-x2pagentd-error-type", b"FORBIDDEN_HOST"),
        ("x-x2pagentd-error-msg", b"nope"),
    ]);
    assert_eq!(
        X2PAgentError::from_headers(&uri(), &h),
        Some(X2PAgentError::ForbiddenHost { host: "example.com".to_string(), message: "nope".to_string() })
    );
}

#[test]
fn connection_error_with_message() {
    let h = headers(&[
        ("x-x2pagentd-error-type", b"CONNECTION"),
        ("x-x2pagentd-error-msg", b"refused"),
    ]);
    assert_eq!(
        X2PAgentError::from_headers(&RequestUri::new(None, "/".to_string()), &h),
        Some(X2PAgentError::Connection { host: "<no host>".to_string(), message: "refused".to_string() })
    );
}

#[test]
fn message_alone_is_generic() {
    let h = headers(&[("x-x2pagentd-error-msg", b"something broke")]);
    assert_eq!(
        X2PAgentError::from_headers(&uri(), &h),
        Some(X2PAgentError::Error("something broke".to_string()))
    );
}

#[test]
fn unknown_type_with_message_is_generic() {
    let h = headers(&[("x-x2pagentd-error-type", b"OTHER"), ("x-x2pagentd-error-msg", b"m")]);
    assert_eq!(X2PAgentError::from_headers(&uri(), &h), Some(X2PAgentError::Error("m".to_string())));
}

#[test]
fn type_without_message_is_no_error() {
    let h = headers(&[("x-x2pagentd-error-type", b"FORBIDDEN_HOST")]);
    assert_eq!(X2PAgentError::from_headers(&uri(), &h), None);
}

#[test]
fn allow_decision_and_unrelated_headers_are_no_error() {
    let h = headers(&[("x-fb-validated-x2pauth-decision", b"allow"), ("content-type", b"text/plain")]);
    assert_eq!(X2PAgentError::from_headers(&uri(), &h), None);
    assert_eq!(X2PAgentError::from_headers(&uri(), &HeaderMap::new()), None);
}

#[test]
fn first_value_of_a_repeated_header_counts() {
    let h = headers(&[
        ("x-x2pagentd-error-msg", b"first"),
        ("x-x2pagentd-error-msg", b"second"),
    ]);
    assert_eq!(X2PAgentError::from_headers(&uri(), &h), Some(X2PAgentError::Error("first".to_string())));
}

#[test]
fn invalid_utf8_message_is_replaced() {
    let h = headers(&[("x-x2pagentd-error-msg", b"a\xffb")]);
    assert_eq!(
        X2PAgentError::from_headers(&uri(), &h),
        Some(X2PAgentError::Error("a\u{FFFD}b".to_string()))
    );
}

#[test]
fn classify_response_directly() {
    assert_eq!(
        classify_response(&uri(), None, Some(b"CONNECTION".to_vec()), Some("x".to_string())),
        Some(X2PAgentError::Connection { host: "example.com".to_string(), message: "x".to_string() })
    );
    assert_eq!(
        classify_response(&uri(), Some(b"deny".to_vec()), None, None),
        Some(X2PAgentError::AccessDenied { host: "example.com".to_string(), path: "/a/b".to_string() })
    );
    assert_eq!(classify_response(&uri(), Some(b"den".to_vec()), None, None), None);
}
