use rust_yt_uploader::retry::{
    is_retriable_failure, is_retriable_status, retry_step, AttemptOutcome, FailureKind, RetryStep,
    DEFAULT_BASE_DELAY_MS, DEFAULT_MAX_RETRIES,
};

#[test]
fn test_is_retriable_status() {
    assert!(is_retriable_status(500));
    assert!(is_retriable_status(502));
    assert!(is_retriable_status(503));
    assert!(is_retriable_status(504));
    assert!(!is_retriable_status(400));
    assert!(!is_retriable_status(404));
    assert!(!is_retriable_status(200));
}

#[test]
fn test_default_retry_params_match_legacy_config() {
    assert_eq!(DEFAULT_MAX_RETRIES, 10);
    assert_eq!(DEFAULT_BASE_DELAY_MS, 1000);
}

#[test]
fn retriable_failures_by_kind() {
    assert!(is_retriable_failure(FailureKind::Http { status: Some(503), connect: false, timeout: false }));
    assert!(!is_retriable_failure(FailureKind::Http { status: Some(404), connect: true, timeout: true }));
    assert!(is_retriable_failure(FailureKind::Http { status: None, connect: true, timeout: false }));
    assert!(is_retriable_failure(FailureKind::Http { status: None, connect: false, timeout: true }));
    assert!(!is_retriable_failure(FailureKind::Http { status: None, connect: false, timeout: false }));
    assert!(is_retriable_failure(FailureKind::Io));
    assert!(!is_retriable_failure(FailureKind::Other));
}

fn run(max_retries: u32, outcomes: &[AttemptOutcome]) -> (usize, bool) {
    let mut attempt = 0u32;
    let mut made = 0usize;
    loop {
        let outcome = outcomes[made];
        made += 1;
        match retry_step(attempt, max_retries, outcome) {
            RetryStep::Done => return (made, true),
            RetryStep::GiveUp => return (made, false),
            RetryStep::Retry { next_attempt } => attempt = next_attempt,
        }
    }
}

#[test]
fn test_retry_success_on_first_attempt() {
    assert_eq!(run(DEFAULT_MAX_RETRIES, &[AttemptOutcome::Succeeded]), (1, true));
}

fn failed(kind: FailureKind) -> AttemptOutcome {
    AttemptOutcome::Failed { retriable: is_retriable_failure(kind) }
}

#[test]
fn retry_success_after_server_errors() {
    let unavailable = failed(FailureKind::Http { status: Some(503), connect: false, timeout: false });
    assert_eq!(run(3, &[unavailable, unavailable, AttemptOutcome::Succeeded]), (3, true));
}

#[test]
fn retry_gives_up_after_server_errors() {
    let unavailable = failed(FailureKind::Http { status: Some(503), connect: false, timeout: false });
    assert_eq!(run(2, &[unavailable; 10]), (3, false));
    assert_eq!(run(0, &[unavailable; 10]), (1, false));
}

#[test]
fn retry_stops_at_once_on_other_errors() {
    let other = failed(FailureKind::Other);
    assert_eq!(run(3, &[other, AttemptOutcome::Succeeded]), (1, false));
    assert_eq!(run(2, &[other; 10]), (1, false));
}

#[test]
fn retry_stops_on_non_retriable_failure() {
    let fail = AttemptOutcome::Failed { retriable: true };
    let hard = AttemptOutcome::Failed { retriable: false };
    assert_eq!(run(5, &[fail, hard, AttemptOutcome::Succeeded]), (2, false));
}
