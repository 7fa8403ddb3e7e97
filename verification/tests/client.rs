use gytags_roster::collector::client::{
    AttemptResult, RetryDecision, RetryState, is_retryable_status, next_backoff_ms,
    normalized_base_url, relative_path,
};

#[test]
fn sends_authenticated_ingest_and_retries() {
    let mut state = RetryState::new();
    match state.record(AttemptResult::HttpStatus {
        status: 503,
        body: String::new(),
    }) {
        RetryDecision::Retry { wait_ms } => assert_eq!(wait_ms, 250),
        other => panic!("unexpected {other:?}"),
    }
    assert!(matches!(
        state.record(AttemptResult::Success),
        RetryDecision::Accept
    ));
}

#[test]
fn gives_up_after_three_attempts() {
    let mut state = RetryState::new();
    assert!(matches!(
        state.record(AttemptResult::Transport {
            error: "refused".into()
        }),
        RetryDecision::Retry { wait_ms: 250 }
    ));
    assert!(matches!(
        state.record(AttemptResult::HttpStatus {
            status: 429,
            body: "slow".into()
        }),
        RetryDecision::Retry { wait_ms: 500 }
    ));
    match state.record(AttemptResult::HttpStatus {
        status: 500,
        body: "boom".into(),
    }) {
        RetryDecision::GiveUp {
            attempts,
            last_error,
        } => {
            assert_eq!(attempts, 3);
            assert_eq!(last_error, "HTTP 500: boom");
        }
        other => panic!("unexpected {other:?}"),
    }
}

#[test]
fn client_errors_fail_at_once() {
    let mut state = RetryState::new();
    match state.record(AttemptResult::HttpStatus {
        status: 401,
        body: "denied".into(),
    }) {
        RetryDecision::Fail { status, body } => {
            assert_eq!(status, 401);
            assert_eq!(body, "denied");
        }
        other => panic!("unexpected {other:?}"),
    }
}

#[test]
fn classifies_statuses_and_backoff() {
    assert!(is_retryable_status(408));
    assert!(is_retryable_status(429));
    assert!(is_retryable_status(500));
    assert!(is_retryable_status(599));
    assert!(!is_retryable_status(404));
    assert!(!is_retryable_status(200));
    assert_eq!(next_backoff_ms(250), 500);
    assert_eq!(next_backoff_ms(4000), 5000);
    assert_eq!(next_backoff_ms(5000), 5000);
}

#[test]
fn trims_slashes_of_urls_and_paths() {
    assert_eq!(normalized_base_url("http://api:8080//"), "http://api:8080");
    assert_eq!(normalized_base_url("http://api:8080"), "http://api:8080");
    assert_eq!(relative_path("/internal/v1/ingest"), "internal/v1/ingest");
}
