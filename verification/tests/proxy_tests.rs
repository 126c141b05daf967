use opencode_shell::{method_kind, proxy_envelope, u16_to_decimal, HttpMethod};

#[test]
fn method_names_are_case_insensitive() {
    assert_eq!(method_kind(&b"POST".to_vec()), HttpMethod::Post);
    assert_eq!(method_kind(&b"post".to_vec()), HttpMethod::Post);
    assert_eq!(method_kind(&b"PoSt".to_vec()), HttpMethod::Post);
    assert_eq!(method_kind(&b"put".to_vec()), HttpMethod::Put);
    assert_eq!(method_kind(&b"Delete".to_vec()), HttpMethod::Delete);
    assert_eq!(method_kind(&b"pAtCh".to_vec()), HttpMethod::Patch);
}

#[test]
fn unrecognized_methods_default_to_get() {
    assert_eq!(method_kind(&b"GET".to_vec()), HttpMethod::Get);
    assert_eq!(method_kind(&b"HEAD".to_vec()), HttpMethod::Get);
    assert_eq!(method_kind(&b"".to_vec()), HttpMethod::Get);
    assert_eq!(method_kind(&b"POSTS".to_vec()), HttpMethod::Get);
}

#[test]
fn decimal_digits() {
    assert_eq!(u16_to_decimal(0), b"0".to_vec());
    assert_eq!(u16_to_decimal(7), b"7".to_vec());
    assert_eq!(u16_to_decimal(404), b"404".to_vec());
    assert_eq!(u16_to_decimal(65535), b"65535".to_vec());
}

#[test]
fn envelope_exact_bytes() {
    let r = proxy_envelope(200, &b"hello".to_vec());
    assert_eq!(r, b"{\"status\":200,\"body\":\"hello\"}".to_vec());
}

#[test]
fn not_found_is_an_answer_not_an_error() {
    let r = proxy_envelope(404, &b"<html>missing</html>".to_vec());
    let text = String::from_utf8(r).unwrap();
    let v: serde_json::Value = serde_json::from_str(&text).unwrap();
    assert_eq!(v["status"], serde_json::Value::from(404u16));
    assert_eq!(v["body"], serde_json::Value::from("<html>missing</html>"));
}

#[test]
fn body_escaping_round_trips() {
    let body = "a\"b\\c\nd\te\rf\u{8}g\u{c}h\u{1}i";
    let r = proxy_envelope(500, &body.as_bytes().to_vec());
    let text = String::from_utf8(r).unwrap();
    let v: serde_json::Value = serde_json::from_str(&text).unwrap();
    assert_eq!(v["status"], serde_json::Value::from(500u16));
    assert_eq!(v["body"], serde_json::Value::from(body));
}

#[test]
fn non_ascii_bodies_pass_through() {
    let body = "héllo → wörld";
    let r = proxy_envelope(200, &body.as_bytes().to_vec());
    let text = String::from_utf8(r).unwrap();
    let v: serde_json::Value = serde_json::from_str(&text).unwrap();
    assert_eq!(v["body"], serde_json::Value::from(body));
}

#[test]
fn empty_body() {
    let r = proxy_envelope(204, &Vec::new());
    assert_eq!(r, b"{\"status\":204,\"body\":\"\"}".to_vec());
}
