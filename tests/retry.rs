use adsync::{Error, RetryPolicy, RetryStep, DEFAULT_MAX_ATTEMPTS};

/// Runs attempts whose outcomes are `outcomes` in turn, as a caller of the
/// policy would; returns the result and the number of attempts made.
fn drive(policy: &RetryPolicy, mut outcomes: Vec<Result<u32, Error>>) -> (Result<u32, Error>, u32) {
    outcomes.reverse();
    let mut made = 0;
    loop {
        made += 1;
        let outcome = outcomes.pop().expect("ran out of outcomes");
        match policy.after_attempt(made, outcome) {
            RetryStep::Done(r) => return (r, made),
            RetryStep::Again { delay_ms } => assert_eq!(delay_ms, policy.delay_ms),
        }
    }
}

fn fails_then_succeeds(k: usize) -> Vec<Result<u32, Error>> {
    let mut v: Vec<Result<u32, Error>> = (0..k)
        .map(|i| Err(Error::Api { code: 40100 + i as i32, message: format!("fail {i}") }))
        .collect();
    v.push(Ok(7));
    v
}

#[test]
fn succeeds_after_k_plus_one_attempts_when_bound_allows() {
    let policy = RetryPolicy::new(3, 10);
    let (r, made) = drive(&policy, fails_then_succeeds(2));
    assert_eq!(r.unwrap(), 7);
    assert_eq!(made, 3);
}

#[test]
fn fails_with_last_error_when_bound_is_too_small() {
    let policy = RetryPolicy::new(2, 10);
    let (r, made) = drive(&policy, fails_then_succeeds(2));
    assert_eq!(made, 2);
    match r {
        Err(Error::Api { code, message }) => {
            assert_eq!(code, 40101);
            assert_eq!(message, "fail 1");
        }
        other => panic!("unexpected {other:?}"),
    }
}

#[test]
fn first_attempt_success_is_one_attempt() {
    let (r, made) = drive(&RetryPolicy::standard(), fails_then_succeeds(0));
    assert_eq!(r.unwrap(), 7);
    assert_eq!(made, 1);
    assert_eq!(DEFAULT_MAX_ATTEMPTS, RetryPolicy::standard().max_attempts);
}

#[test]
fn missing_credential_is_not_retried() {
    let policy = RetryPolicy::new(5, 10);
    let (r, made) = drive(&policy, vec![Err(Error::Credential), Ok(1)]);
    assert!(matches!(r, Err(Error::Credential)));
    assert_eq!(made, 1);
}

#[test]
fn transport_and_decode_errors_are_retried() {
    let policy = RetryPolicy::new(3, 5);
    let outcomes = vec![Err(Error::Http("reset".into())), Err(Error::Json("eof".into())), Ok(9)];
    let (r, made) = drive(&policy, outcomes);
    assert_eq!(r.unwrap(), 9);
    assert_eq!(made, 3);
}

#[test]
fn api_code_picks_the_backoff() {
    assert_eq!(Error::Api { code: 11017, message: String::new() }.api_code(), Some(11017));
    assert_eq!(Error::Http("x".into()).api_code(), None);
    assert!(!Error::Credential.is_retryable());
    assert!(Error::Database("x".into()).is_retryable());
}
