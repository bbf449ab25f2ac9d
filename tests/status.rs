use website_checker::status::{Timestamp, WebsiteStatus};

fn record(url: &str, action_status: Result<u16, String>, response_ms: u64) -> WebsiteStatus {
    WebsiteStatus {
        url: url.to_string(),
        action_status,
        response_ms,
        timestamp: Timestamp { secs: 1700000000, nanos: 5 },
    }
}

#[test]
fn line_of_response() {
    let s = record("http://a.test", Ok(200), 12);
    assert_eq!(s.to_line(), "[1700000000.000000005] http://a.test — HTTP 200 — 12 ms");
}

#[test]
fn line_of_failure() {
    let s = record("http://a.test", Err("connection refused".to_string()), 0);
    assert_eq!(s.to_line(), "[1700000000.000000005] http://a.test — ERROR connection refused — 0 ms");
}

#[test]
fn line_keeps_error_codes_as_responses() {
    let s = record("http://b.test", Ok(503), 1234);
    assert_eq!(s.to_line(), "[1700000000.000000005] http://b.test — HTTP 503 — 1234 ms");
}

#[test]
fn line_with_full_nanoseconds() {
    let mut s = record("x", Ok(0), 18446744073709551615);
    s.timestamp = Timestamp { secs: 0, nanos: 999999999 };
    assert_eq!(s.to_line(), "[0.999999999] x — HTTP 0 — 18446744073709551615 ms");
}

#[test]
fn json_of_response() {
    let s = record("http://a.test", Ok(200), 12);
    assert_eq!(s.to_json(), r#"{"url":"http://a.test","status":200,"rt_ms":12,"ts":1700000000}"#);
}

#[test]
fn json_of_failure() {
    let s = record("http://a.test", Err("connection refused".to_string()), 7);
    assert_eq!(
        s.to_json(),
        r#"{"url":"http://a.test","status":"connection refused","rt_ms":7,"ts":1700000000}"#
    );
}

#[test]
fn json_escapes_special_characters() {
    let s = record("http://q.test/\"x\"", Err("bad \\ line\nnext\ttab\u{1}".to_string()), 1);
    assert_eq!(
        s.to_json(),
        r#"{"url":"http://q.test/\"x\"","status":"bad \\ line\nnext\ttab\u0001","rt_ms":1,"ts":1700000000}"#
    );
}

#[test]
fn json_keeps_non_ascii() {
    let s = record("http://ü.test", Ok(404), 3);
    assert_eq!(s.to_json(), r#"{"url":"http://ü.test","status":404,"rt_ms":3,"ts":1700000000}"#);
}
