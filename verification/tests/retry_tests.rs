use podcatch_rust::retry::{RetryDecision, RetryPolicy, CEILING_MS, INITIAL_DELAY_MS};

#[test]
fn third_attempt_succeeds_within_ceiling() {
    // The transport fails exactly twice, then succeeds: after two failure
    // steps the policy still says retry, so the third attempt happens; the
    // time slept never reaches the ceiling.
    let mut policy = RetryPolicy::new();
    let mut slept: u64 = 0;

    let first = policy.on_failure(500);
    slept += first.sleep_ms;
    assert_eq!(first.sleep_ms, INITIAL_DELAY_MS);
    assert!(matches!(first.decision, RetryDecision::Retry));

    let second = policy.on_failure(500);
    slept += second.sleep_ms;
    assert_eq!(second.sleep_ms, 4000);
    assert!(matches!(second.decision, RetryDecision::Retry));

    // The third attempt is made (and, here, succeeds): no further failure
    // step is taken.
    assert!(policy.can_retry());
    assert!(slept < CEILING_MS);
}

#[test]
fn always_failing_transport_terminates_at_ceiling() {
    let mut policy = RetryPolicy::new();
    let mut steps = 0;
    loop {
        let step = policy.on_failure(999);
        assert!(step.sleep_ms < CEILING_MS);
        steps += 1;
        if matches!(step.decision, RetryDecision::GiveUp) {
            break;
        }
        assert!(steps < 64, "the policy must give up once the ceiling is reached");
    }
    assert!(!policy.can_retry());
}

#[test]
fn delay_grows_by_the_jitter_factor() {
    let mut policy = RetryPolicy::new();
    policy.on_failure(250);
    assert_eq!(policy.delay_ms, 2000);
    policy.on_failure(0);
    assert_eq!(policy.delay_ms, 0);
}

#[test]
fn random_jitter_first_sleep_is_the_initial_delay() {
    let mut policy = RetryPolicy::new();
    let step = policy.on_failure_random();
    assert_eq!(step.sleep_ms, INITIAL_DELAY_MS);
    // delay grows to at most 1000 * 8 * 999 / 1000 < ceiling: always retry.
    assert!(matches!(step.decision, RetryDecision::Retry));
    assert!(policy.delay_ms < CEILING_MS);
}
