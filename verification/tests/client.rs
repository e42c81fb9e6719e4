//! Requests on the wire and answers from it.
use proxmoxmcp::client::{check_endpoint, data_of, encode_form, percent_encode, read_answer, request_url};
use proxmoxmcp::error::ProxmoxError;
use proxmoxmcp::json::JsonShape;

fn pairs(fields: &[(&str, &str)]) -> Vec<(String, String)> {
    fields.iter().map(|(k, v)| ((*k).to_owned(), (*v).to_owned())).collect()
}

#[test]
fn unwraps_the_data_envelope() {
    let data = read_answer(200, br#"{"data":[{"node":"pve2","status":"online"}]}"#).expect("get nodes");
    assert_eq!(data, r#"[{"node":"pve2","status":"online"}]"#);
}

#[test]
fn a_401_becomes_unauthorized_without_echoing_the_body() {
    let error = read_answer(401, b"authentication failure: token 0123456789abcdef").expect_err("401 must error");
    assert!(matches!(error, ProxmoxError::Unauthorized), "expected Unauthorized, got {error:?}");
    assert!(
        !error.message().contains("0123456789abcdef"),
        "secret must not leak into error message"
    );
}

#[test]
fn a_plaintext_endpoint_is_refused_at_construction() {
    let result = check_endpoint("http://pve3.example.org:8006");
    assert_eq!(
        result,
        Err(ProxmoxError::Malformed(
            "endpoint must use https, got: http://pve3.example.org:8006".to_owned()
        ))
    );
    assert_eq!(check_endpoint("https://pve3.example.org:8006"), Ok(()));
}

#[test]
fn appends_query_parameters() {
    let url = request_url(
        "https://pve3.example.org:8006/",
        "/api2/json/nodes/pve2/storage/local/content",
        &pairs(&[("content", "backup")]),
    );
    assert_eq!(
        url,
        "https://pve3.example.org:8006/api2/json/nodes/pve2/storage/local/content?content=backup"
    );
    assert_eq!(request_url("https://a//", "/b", &Vec::new()), "https://a/b");
}

#[test]
fn reserved_characters_are_encoded() {
    assert_eq!(percent_encode("AZaz09-._~"), "AZaz09-._~");
    assert_eq!(percent_encode("a b/c?d=e&f"), "a%20b%2Fc%3Fd%3De%26f");
    assert_eq!(percent_encode("+8G"), "%2B8G");
    assert_eq!(percent_encode("é€"), "%C3%A9%E2%82%AC");
    assert_eq!(percent_encode(""), "");
}

#[test]
fn a_form_is_its_fields_in_order() {
    assert_eq!(
        encode_form(&pairs(&[("snapname", "pre"), ("description", "before the wave"), ("a&b", "c=d")])),
        "snapname=pre&description=before%20the%20wave&a%26b=c%3Dd"
    );
    assert_eq!(encode_form(&Vec::new()), "");
}

#[test]
fn an_answer_without_data_is_malformed() {
    for body in [&b"{}"[..], b"[]", b"7", b"\"data\""] {
        assert_eq!(
            read_answer(200, body),
            Err(ProxmoxError::Malformed("response has no 'data' member".to_owned()))
        );
    }
    assert!(matches!(read_answer(200, b"not json"), Err(ProxmoxError::Malformed(_))));
    assert!(matches!(read_answer(200, &[0xff]), Err(ProxmoxError::Malformed(_))));
}

#[test]
fn a_null_answer_is_data_all_the_same() {
    assert_eq!(read_answer(200, br#"{"data":null}"#), Ok("null".to_owned()));
}

#[test]
fn an_error_status_is_an_api_error() {
    assert_eq!(
        read_answer(500, b"boom"),
        Err(ProxmoxError::Api { status: 500, message: "boom".to_owned() })
    );
    assert_eq!(read_answer(399, br#"{"data":1}"#), Ok("1".to_owned()));
    assert!(matches!(read_answer(400, br#"{"data":1}"#), Err(ProxmoxError::Api { .. })));
}

#[test]
fn a_parsed_document_yields_its_data() {
    let field = |k: &str, v: &str| (k.to_owned(), v.to_owned());
    assert_eq!(
        data_of(Ok(JsonShape::Object(vec![field("x", "1"), field("data", "{\"pid\":4242}")]))),
        Ok("{\"pid\":4242}".to_owned())
    );
    assert_eq!(
        data_of(Err("eof".to_owned())),
        Err(ProxmoxError::Malformed("eof".to_owned()))
    );
}
