use bunkr_uploader::retry::{after_transport_error, backoff_delay_secs, RetryDecision, MAX_RETRIES};

/// Runs attempts whose results are given, as an executor does; returns the attempts made, the
/// waits observed and whether an answer came.
fn run(results: &[bool]) -> (u32, Vec<u64>, bool) {
    let mut attempts = 0u32;
    let mut waits = Vec::new();
    loop {
        let answered = results[attempts as usize];
        attempts += 1;
        if answered {
            return (attempts, waits, true);
        }
        match after_transport_error(attempts, MAX_RETRIES) {
            RetryDecision::RetryAfter { delay_secs } => waits.push(delay_secs),
            RetryDecision::GiveUp => return (attempts, waits, false),
        }
    }
}

#[test]
fn always_failing_operation_is_attempted_six_times() {
    let (attempts, waits, answered) = run(&[false; 10]);
    assert_eq!(attempts, 6);
    assert_eq!(waits, vec![1, 2, 4, 8, 16]);
    assert!(!answered);
}

#[test]
fn failing_once_then_succeeding_retries_once() {
    let (attempts, waits, answered) = run(&[false, true, false]);
    assert_eq!(attempts, 2);
    assert_eq!(waits.len(), 1);
    assert_eq!(waits, vec![1]);
    assert!(answered);
}

#[test]
fn backoff_saturates() {
    assert_eq!(backoff_delay_secs(0), 1);
    assert_eq!(backoff_delay_secs(4), 16);
    assert_eq!(backoff_delay_secs(63), 1u64 << 63);
    assert_eq!(backoff_delay_secs(64), u64::MAX);
    assert_eq!(backoff_delay_secs(200), u64::MAX);
    assert_eq!(after_transport_error(1, 0), RetryDecision::GiveUp);
}
