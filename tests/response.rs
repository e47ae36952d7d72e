use qx_rs_err::err::Error;

fn entries(e: &Error) -> Vec<(String, String)> {
    e.payload()
}

fn pair(k: &str, v: &str) -> (String, String) {
    (k.to_string(), v.to_string())
}

#[test]
fn message_payload_falls_back_to_none_code() {
    let e = Error::message("User Not Found");
    assert_eq!(entries(&e), vec![pair("code", "none"), pair("message", "User Not Found")]);
    assert_eq!(e.json_body(), "{\"code\":\"none\",\"message\":\"User Not Found\"}");
}

#[test]
fn message_payload_keeps_its_code() {
    let e = Error::code_message("NOT_FOUND", "User Not Found");
    assert_eq!(entries(&e), vec![pair("code", "NOT_FOUND"), pair("message", "User Not Found")]);
}

#[test]
fn end_to_end_code_and_info_body() {
    let e = Error::error_code_info("001", "failed", "crate/src/err.rs", 10, 5);
    let r = e.into_response();
    assert_eq!(r.status, 200);
    assert_eq!(r.content_type, "application/json");
    assert!(r.body.contains("\"code\":\"error.001\""));
    assert!(r.body.contains("\"info\":\"failed\""));
    assert!(r.body.contains("\"message\":\"System Error\""));
    assert_eq!(
        r.body,
        "{\"message\":\"System Error\",\"code\":\"error.001\",\"info\":\"failed\",\"trace\":\"err.rs:10,5\"}"
    );
}

#[test]
fn diagnostic_payload_hides_info_behind_fixed_message() {
    let e = Error::error_info("db down", "src/a.rs", 2, 3).ext("retry later");
    let p = entries(&e);
    assert_eq!(
        p,
        vec![
            pair("message", "System Error"),
            pair("info", "db down"),
            pair("trace", "a.rs:2,3"),
            pair("ext", "retry later"),
        ]
    );
    assert_eq!(p.iter().filter(|(k, _)| k == "message").count(), 1);
    assert!(p.iter().all(|(k, _)| k != "code" && k != "error"));
}

#[test]
fn cause_status_is_still_ok() {
    let cause = std::io::Error::new(std::io::ErrorKind::AddrInUse, "xxx");
    let shown = format!("{:?}", cause);
    let r = Error::error(Box::new(cause), "src/x.rs", 1, 2).into_response();
    assert_eq!(r.status, 200);
    let parsed: serde_json::Value = serde_json::from_str(&r.body).unwrap();
    assert_eq!(parsed["message"], "System Error");
    assert_eq!(parsed["error"], shown.as_str());
    assert!(parsed.get("info").is_none());
}

#[test]
fn message_status_is_ok() {
    let r = Error::message("m").into_response();
    assert_eq!(r.status, 200);
    assert_eq!(r.content_type, "application/json");
}

#[test]
fn json_body_escapes_strings() {
    let e = Error::message("a\"b\\c\nd\u{1}");
    assert_eq!(
        e.json_body(),
        "{\"code\":\"none\",\"message\":\"a\\\"b\\\\c\\nd\\u0001\"}"
    );
}
