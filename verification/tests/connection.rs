use deskctl::connection::{
    AcquireStep, ConnectionAcquirer, ConnectionError, BACKOFF_STEP_MS, MAX_ATTEMPTS_LIMIT,
};

/// Runs an acquisition against the given outcomes and returns how it ended,
/// the pauses it asked for, and the number of attempts it made.
fn run(
    max_attempts: u64,
    outcomes: Vec<Result<&'static str, &'static str>>,
) -> (Option<Result<&'static str, ConnectionError<&'static str>>>, Vec<u64>, usize) {
    let mut acquirer = ConnectionAcquirer::new(max_attempts);
    let mut pauses = Vec::new();
    let mut attempts = 0;
    for outcome in outcomes {
        attempts += 1;
        match acquirer.next(outcome) {
            AcquireStep::Done(result) => return (Some(result), pauses, attempts),
            AcquireStep::RetryAfter(millis) => pauses.push(millis),
        }
    }
    (None, pauses, attempts)
}

#[test]
fn fails_twice_then_succeeds_on_third_attempt() {
    let outcomes = vec![Err("first"), Err("second"), Ok("desk"), Ok("never asked")];
    let (result, pauses, attempts) = run(3, outcomes);
    assert_eq!(result, Some(Ok("desk")));
    assert_eq!(pauses, vec![200, 300]);
    assert_eq!(attempts, 3);
}

#[test]
fn single_attempt_fails_at_once_without_pause() {
    let (result, pauses, attempts) = run(1, vec![Err("down"), Err("down"), Err("down")]);
    assert_eq!(result, Some(Err(ConnectionError::Exhausted("down"))));
    assert!(pauses.is_empty());
    assert_eq!(attempts, 1);
}

#[test]
fn success_on_first_attempt_needs_no_pause() {
    let (result, pauses, attempts) = run(5, vec![Ok("desk")]);
    assert_eq!(result, Some(Ok("desk")));
    assert!(pauses.is_empty());
    assert_eq!(attempts, 1);
}

#[test]
fn exhaustion_carries_the_last_error() {
    let outcomes = vec![Err("one"), Err("two"), Err("three"), Err("four")];
    let (result, pauses, attempts) = run(3, outcomes);
    assert_eq!(result, Some(Err(ConnectionError::Exhausted("three"))));
    assert_eq!(pauses, vec![200, 300]);
    assert_eq!(attempts, 3);
}

#[test]
fn default_policy_pauses_grow_by_one_step() {
    let outcomes = vec![Err("e"), Err("e"), Err("e"), Err("e"), Err("last")];
    let (result, pauses, attempts) = run(5, outcomes);
    assert_eq!(result, Some(Err(ConnectionError::Exhausted("last"))));
    assert_eq!(pauses, vec![200, 300, 400, 500]);
    assert_eq!(attempts, 5);
    assert_eq!(BACKOFF_STEP_MS, 100);
}

#[test]
fn zero_attempts_behave_as_one() {
    let (result, pauses, attempts) = run(0, vec![Err("down"), Ok("desk")]);
    assert_eq!(result, Some(Err(ConnectionError::Exhausted("down"))));
    assert!(pauses.is_empty());
    assert_eq!(attempts, 1);
}

#[test]
fn attempt_number_counts_from_one() {
    let mut acquirer = ConnectionAcquirer::new(3);
    assert_eq!(acquirer.attempt_number(), 1);
    let step: AcquireStep<u8, u8> = acquirer.next(Err(0));
    assert_eq!(step, AcquireStep::RetryAfter(200));
    assert_eq!(acquirer.attempt_number(), 2);
    let step: AcquireStep<u8, u8> = acquirer.next(Err(0));
    assert_eq!(step, AcquireStep::RetryAfter(300));
    assert_eq!(acquirer.attempt_number(), 3);
    let step: AcquireStep<u8, u8> = acquirer.next(Err(7));
    assert_eq!(step, AcquireStep::Done(Err(ConnectionError::Exhausted(7))));
    assert_eq!(acquirer.attempt_number(), 3);
}

#[test]
fn checked_new_refuses_what_does_not_fit() {
    assert!(ConnectionAcquirer::checked_new(0).is_some());
    assert!(ConnectionAcquirer::checked_new(5).is_some());
    assert!(ConnectionAcquirer::checked_new(MAX_ATTEMPTS_LIMIT).is_some());
    assert!(ConnectionAcquirer::checked_new(MAX_ATTEMPTS_LIMIT + 1).is_none());
    assert!(ConnectionAcquirer::checked_new(u64::MAX).is_none());
    assert_eq!(MAX_ATTEMPTS_LIMIT, u64::MAX / 100);
}
