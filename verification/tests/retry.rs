use std::time::Duration;

use s3z::config::RetryPolicy;
use s3z::error::Error;
use s3z::http::response::S3ErrorBody;
use s3z::http::retry::{
    classify, classify_head, jittered, jittered_with, status_text, Action, Outcome, RetryLoop,
};

fn fast_policy(max_retries: u32) -> RetryPolicy {
    RetryPolicy::new(Duration::from_millis(1), Duration::from_millis(10), max_retries)
}

fn s3(code: &str) -> Error {
    Error::S3 { code: code.into(), message: String::new() }
}

#[test]
fn status_text_includes_reason() {
    assert_eq!(status_text(503), "503 Service Unavailable");
    assert_eq!(status_text(429), "429 Too Many Requests");
    assert_eq!(status_text(599), "599 <unknown status code>");
}

#[test]
fn classify_by_status() {
    assert!(matches!(classify(200, "", None), Outcome::Success));
    match classify(500, "server error", None) {
        Outcome::Retryable(Error::S3 { code, message }) => {
            assert_eq!(code, "500 Internal Server Error");
            assert_eq!(message, "server error");
        },
        other => panic!("unexpected {other:?}"),
    }
    let parsed = S3ErrorBody { code: "AccessDenied".into(), message: "no".into() };
    match classify(403, "<Error>..</Error>", Some(parsed)) {
        Outcome::Fatal(Error::S3 { code, message }) => {
            assert_eq!(code, "AccessDenied");
            assert_eq!(message, "no");
        },
        other => panic!("unexpected {other:?}"),
    }
    match classify(400, "not xml at all", None) {
        Outcome::Fatal(Error::S3 { code, message }) => {
            assert_eq!(code, "Unknown");
            assert_eq!(message, "not xml at all");
        },
        other => panic!("unexpected {other:?}"),
    }
}

#[test]
fn classify_head_maps_well_known_codes() {
    match classify_head(404) {
        Outcome::Fatal(Error::S3 { code, message }) => {
            assert_eq!(code, "NotFound");
            assert_eq!(message, "object does not exist");
        },
        other => panic!("unexpected {other:?}"),
    }
    match classify_head(403) {
        Outcome::Fatal(Error::S3 { code, message }) => {
            assert_eq!(code, "AccessDenied");
            assert_eq!(message, "access denied");
        },
        other => panic!("unexpected {other:?}"),
    }
    match classify_head(409) {
        Outcome::Fatal(Error::S3 { code, message }) => {
            assert_eq!(code, "409 Conflict");
            assert_eq!(message, "");
        },
        other => panic!("unexpected {other:?}"),
    }
    assert!(matches!(classify_head(503), Outcome::Retryable(_)));
    assert!(matches!(classify_head(204), Outcome::Success));
}

#[test]
fn retry_loop_backs_off_then_gives_up() {
    let mut l = RetryLoop::new(&fast_policy(3));
    assert_eq!(l.attempts, 4);
    assert!(matches!(l.record(Outcome::Retryable(s3("a"))), Action::Backoff(1_000_000)));
    assert!(matches!(l.record(Outcome::Retryable(s3("b"))), Action::Backoff(2_000_000)));
    assert!(matches!(l.record(Outcome::Retryable(s3("c"))), Action::Backoff(4_000_000)));
    match l.record(Outcome::Retryable(s3("last"))) {
        Action::Fail(Error::S3 { code, .. }) => assert_eq!(code, "last"),
        other => panic!("unexpected {other:?}"),
    }
    assert!(!l.has_attempt_left());
}

#[test]
fn retry_loop_caps_delay() {
    let mut l = RetryLoop::new(&fast_policy(10));
    let mut delays = Vec::new();
    for _ in 0..6 {
        match l.record(Outcome::Retryable(s3("x"))) {
            Action::Backoff(d) => delays.push(d),
            other => panic!("unexpected {other:?}"),
        }
    }
    assert_eq!(delays, vec![1_000_000, 2_000_000, 4_000_000, 8_000_000, 10_000_000, 10_000_000]);
}

#[test]
fn retry_loop_stops_on_success_and_fatal() {
    let mut l = RetryLoop::new(&fast_policy(2));
    assert!(matches!(l.record(Outcome::Success), Action::Succeed));
    let mut l = RetryLoop::new(&fast_policy(2));
    assert!(matches!(l.record(Outcome::Fatal(s3("Forbidden"))), Action::Fail(_)));
    let mut l = RetryLoop::new(&fast_policy(0));
    assert!(matches!(l.record(Outcome::Retryable(s3("x"))), Action::Fail(_)));
}

#[test]
fn jitter_values() {
    assert_eq!(jittered_with(0, 12345), 0);
    assert_eq!(jittered_with(1, 12345), 1);
    assert_eq!(jittered_with(100, 7), 57);
    assert_eq!(jittered_with(100, 51), 50);
    let j = jittered(1_000_000);
    assert!((500_000..=1_000_000).contains(&j));
}

#[test]
fn exhausted_error_text() {
    match RetryLoop::exhausted() {
        Error::Internal(m) => assert_eq!(m, "no attempts made"),
        other => panic!("unexpected {other:?}"),
    }
}
