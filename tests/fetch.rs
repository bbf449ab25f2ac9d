use website_checker::fetch::{AttemptResult, FetchStep, Fetcher, RETRY_DELAY_MS};
use website_checker::status::{Timestamp, WebsiteStatus};

/// Runs a check whose attempts come back with `results` in turn; returns the
/// record and the number of attempts made.
fn run_check(fetcher: &Fetcher, url: &str, results: Vec<AttemptResult>) -> (WebsiteStatus, usize) {
    let mut attempt = fetcher.start(url.to_string());
    let mut made = 0;
    for (i, result) in results.into_iter().enumerate() {
        made += 1;
        let ts = Timestamp { secs: 100 + i as u64, nanos: 0 };
        match attempt.record(result, 10 * (i as u64 + 1), ts) {
            FetchStep::RetryAfterDelay(next) => attempt = next,
            FetchStep::Done(status) => return (status, made),
        }
    }
    panic!("the check asked for more attempts than were given");
}

fn refused() -> AttemptResult {
    AttemptResult::TransportError("connection refused".to_string())
}

#[test]
fn new_keeps_configuration() {
    let f = Fetcher::new(5, 2);
    assert_eq!(f.timeout_secs, 5);
    assert_eq!(f.retries, 2);
    assert_eq!(RETRY_DELAY_MS, 100);
}

#[test]
fn start_allows_retries_plus_one_attempts() {
    let f = Fetcher::new(5, 3);
    let a = f.start("http://a.test".to_string());
    assert_eq!(a.attempts_left, 4);
    assert_eq!(a.url, "http://a.test");
}

#[test]
fn persistent_failure_makes_retries_plus_one_attempts() {
    let f = Fetcher::new(5, 3);
    let results = (0..10).map(|_| refused()).collect();
    let (status, made) = run_check(&f, "http://a.test", results);
    assert_eq!(made, 4);
    assert_eq!(status.action_status, Err("connection refused".to_string()));
    assert_eq!(status.url, "http://a.test");
    // the last attempt's measurements only
    assert_eq!(status.response_ms, 40);
    assert_eq!(status.timestamp, Timestamp { secs: 103, nanos: 0 });
}

#[test]
fn no_retries_means_one_attempt() {
    let f = Fetcher::new(5, 0);
    let (status, made) = run_check(&f, "http://a.test", vec![refused(), refused()]);
    assert_eq!(made, 1);
    assert!(status.action_status.is_err());
}

#[test]
fn failure_message_is_the_last_one() {
    let f = Fetcher::new(1, 1);
    let results = vec![
        AttemptResult::TransportError("dns error".to_string()),
        AttemptResult::TransportError("timed out".to_string()),
    ];
    let (status, made) = run_check(&f, "http://a.test", results);
    assert_eq!(made, 2);
    assert_eq!(status.action_status, Err("timed out".to_string()));
}

#[test]
fn response_on_kth_attempt_ends_the_check() {
    let f = Fetcher::new(5, 3);
    let results = vec![refused(), refused(), AttemptResult::Response(200), refused()];
    let (status, made) = run_check(&f, "http://b.test", results);
    assert_eq!(made, 3);
    assert_eq!(status.action_status, Ok(200));
    assert_eq!(status.response_ms, 30);
    assert_eq!(status.timestamp, Timestamp { secs: 102, nanos: 0 });
}

#[test]
fn response_on_last_allowed_attempt() {
    let f = Fetcher::new(5, 2);
    let results = vec![refused(), refused(), AttemptResult::Response(204)];
    let (status, made) = run_check(&f, "http://b.test", results);
    assert_eq!(made, 3);
    assert_eq!(status.action_status, Ok(204));
}

#[test]
fn error_codes_count_as_responses() {
    let f = Fetcher::new(5, 3);
    let (status, made) = run_check(&f, "http://c.test", vec![AttemptResult::Response(500), refused()]);
    assert_eq!(made, 1);
    assert_eq!(status.action_status, Ok(500));
}
