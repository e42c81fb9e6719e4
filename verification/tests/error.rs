//! Error classification and peer-supplied detail.
use proxmoxmcp::error::{join_reasons, sanitise, ProxmoxError};

#[test]
fn maps_proxmox_error_map_to_api_variant() {
    let body = br#"{"data":null,"errors":{"vmid":"invalid format"}}"#;
    let error = ProxmoxError::from_response(400, body);
    match error {
        ProxmoxError::Api { status, message } => {
            assert_eq!(status, 400);
            assert!(message.contains("vmid"), "message was {message}");
            assert!(message.contains("invalid format"), "message was {message}");
            assert_eq!(message, "vmid: invalid format");
        }
        other => panic!("expected Api, got {other:?}"),
    }
}

#[test]
fn maps_401_to_unauthorized_without_echoing_body() {
    let error = ProxmoxError::from_response(401, b"authentication failure: token 'secret'");
    assert!(matches!(error, ProxmoxError::Unauthorized));
    assert!(!error.message().contains("secret"));
    assert!(matches!(ProxmoxError::from_response(403, b"x"), ProxmoxError::Unauthorized));
}

#[test]
fn bounds_and_sanitises_unstructured_error_text() {
    let body = format!("x\u{0007}{}", "y".repeat(4096));
    let error = ProxmoxError::from_response(500, body.as_bytes());
    let rendered = error.message();
    assert!(rendered.len() <= 640, "rendered {} bytes", rendered.len());
    assert!(!rendered.contains('\u{0007}'), "control byte survived");
}

#[test]
fn an_error_map_is_sorted_and_keeps_what_is_not_a_string() {
    let body = br#"{"errors":{"vmid":{"min":100},"name":"too long","arch":7}}"#;
    match ProxmoxError::from_response(400, body) {
        ProxmoxError::Api { message, .. } => {
            assert_eq!(message, "arch: 7; name: too long; vmid: {\"min\":100}");
        }
        other => panic!("expected Api, got {other:?}"),
    }
}

#[test]
fn a_body_without_an_error_map_is_its_own_detail() {
    for body in ["plain text", "{\"errors\":[1]}", "{\"data\":null}", "[]"] {
        match ProxmoxError::from_response(500, body.as_bytes()) {
            ProxmoxError::Api { message, status } => {
                assert_eq!(message, body);
                assert_eq!(status, 500);
            }
            other => panic!("expected Api, got {other:?}"),
        }
    }
}

#[test]
fn bytes_that_are_not_utf8_are_replaced() {
    match ProxmoxError::from_response(502, &[0x61, 0xff, 0x62]) {
        ProxmoxError::Api { message, .. } => assert_eq!(message, "a\u{fffd}b"),
        other => panic!("expected Api, got {other:?}"),
    }
}

#[test]
fn truncation_keeps_characters_whole() {
    let text = "é".repeat(300);
    let kept = sanitise(&text);
    assert_eq!(kept.len(), 512);
    assert_eq!(kept.chars().count(), 256);
    let odd = format!("a{}", "é".repeat(300));
    assert_eq!(sanitise(&odd).len(), 511);
    assert_eq!(sanitise(&"x".repeat(512)).len(), 512);
    assert_eq!(sanitise("a\tb\nc\u{7f}d\u{85}e"), "abcde");
}

#[test]
fn reasons_are_joined_in_order() {
    let fields = vec![
        ("b".to_owned(), "two".to_owned()),
        ("a".to_owned(), "one".to_owned()),
    ];
    assert_eq!(join_reasons(&fields), "a: one; b: two");
    assert_eq!(join_reasons(&Vec::new()), "");
}

#[test]
fn every_error_says_what_it_is() {
    assert_eq!(ProxmoxError::Http("refused".to_owned()).message(), "http: refused");
    assert_eq!(
        ProxmoxError::Api { status: 500, message: "oops".to_owned() }.message(),
        "proxmox api error (status 500): oops"
    );
    assert_eq!(
        ProxmoxError::Unauthorized.message(),
        "proxmox api rejected the configured credentials"
    );
    assert_eq!(ProxmoxError::Denied("no".to_owned()).message(), "denied: no");
    assert_eq!(ProxmoxError::NotFound { what: "x".to_owned() }.message(), "not found: x");
    assert_eq!(
        ProxmoxError::Malformed("x".to_owned()).message(),
        "malformed proxmox response: x"
    );
    assert_eq!(ProxmoxError::Config("x".to_owned()).message(), "configuration error: x");
    assert_eq!(ProxmoxError::UnknownCluster("x".to_owned()).message(), "unknown cluster: x");
}

#[test]
fn only_an_answer_is_definitive() {
    assert!(ProxmoxError::Unauthorized.is_definitive());
    assert!(ProxmoxError::Denied(String::new()).is_definitive());
    assert!(ProxmoxError::NotFound { what: String::new() }.is_definitive());
    assert!(ProxmoxError::Api { status: 500, message: String::new() }.is_definitive());
    assert!(!ProxmoxError::Http(String::new()).is_definitive());
    assert!(!ProxmoxError::Malformed(String::new()).is_definitive());
}
