use ami_code::app::supervisor::{
    RestartDecision, RestartPolicy, SessionIdentity, SessionIds, STABLE_SESSION_NANOS,
};
use ami_code::time::{Duration, Instant};

const START: Instant = Instant { nanos: 1_000_000_000 };

fn delay(decision: RestartDecision) -> Duration {
    match decision {
        RestartDecision::Backoff(delay) => delay,
        RestartDecision::Paused => panic!("unexpected pause"),
    }
}

#[test]
fn delay_sequence_reaches_and_stays_at_cap() {
    let mut policy = RestartPolicy::default();
    let actual: Vec<_> = (0..8)
        .map(|failure| {
            // Keep failures outside the rolling pause window while retaining
            // the consecutive backoff count.
            delay(policy.failed(START.plus(Duration::from_secs(failure * 31)), Duration::zero()))
        })
        .collect();
    assert_eq!(
        actual,
        [250, 500, 1_000, 2_000, 4_000, 8_000, 8_000, 8_000].map(Duration::from_millis)
    );
}

#[test]
fn rolling_window_discards_old_quick_failures() {
    let mut policy = RestartPolicy::default();
    for second in 0..5 {
        assert!(matches!(
            policy.failed(START.plus(Duration::from_secs(second)), Duration::zero()),
            RestartDecision::Backoff(_)
        ));
    }
    assert_eq!(
        policy.failed(START.plus(Duration::from_secs(35)), Duration::zero()),
        RestartDecision::Backoff(Duration::from_secs(8))
    );
}

#[test]
fn stable_runtime_resets_failure_history_and_delay() {
    let mut policy = RestartPolicy::default();
    assert_eq!(
        delay(policy.failed(START, Duration::zero())),
        Duration::from_millis(250)
    );
    assert_eq!(
        delay(policy.failed(START.plus(Duration::from_secs(1)), Duration::zero())),
        Duration::from_millis(500)
    );
    assert_eq!(
        delay(policy.failed(
            START.plus(Duration::from_secs(2)),
            Duration { nanos: STABLE_SESSION_NANOS }
        )),
        Duration::from_millis(250)
    );
}

#[test]
fn sixth_quick_failure_pauses() {
    let mut policy = RestartPolicy::default();
    for second in 0..5 {
        assert!(matches!(
            policy.failed(START.plus(Duration::from_secs(second)), Duration::zero()),
            RestartDecision::Backoff(_)
        ));
    }
    assert_eq!(
        policy.failed(START.plus(Duration::from_secs(5)), Duration::zero()),
        RestartDecision::Paused
    );
}

#[test]
fn manual_reset_restores_initial_delay_and_clears_pause() {
    let mut policy = RestartPolicy::default();
    for second in 0..6 {
        let _ = policy.failed(START.plus(Duration::from_secs(second)), Duration::zero());
    }
    policy.reset();
    assert_eq!(
        policy.failed(START.plus(Duration::from_secs(6)), Duration::zero()),
        RestartDecision::Backoff(Duration::from_millis(250))
    );
}

#[test]
fn ids_are_monotonic_and_identity_includes_generation() {
    let mut ids = SessionIds::new();
    let first = ids.allocate(4).unwrap();
    let second = ids.allocate(5).unwrap();
    assert!(first.id < second.id);
    assert_eq!(first.generation, 4);
    assert_eq!(second.generation, 5);
}

#[test]
fn stale_id_or_generation_does_not_match_current_identity() {
    let mut ids = SessionIds::new();
    let old = ids.allocate(1).unwrap();
    let current = ids.allocate(2).unwrap();
    assert!(!current.matches(old));
    assert!(!current.matches(SessionIdentity {
        id: current.id,
        generation: 1,
    }));
    assert!(current.matches(current));
}

#[test]
fn shutdown_suppresses_future_allocations() {
    let mut ids = SessionIds::new();
    assert!(ids.allocate(1).is_some());
    ids.shutdown();
    assert!(ids.is_shutting_down());
    assert!(ids.allocate(2).is_none());
}

#[test]
fn rare_failures_never_pause_a_backend() {
    let mut policy = RestartPolicy::default();
    for failure in 0..40 {
        assert!(matches!(
            policy.failed(START.plus(Duration::from_secs(failure * 31)), Duration::zero()),
            RestartDecision::Backoff(_)
        ));
    }
}

#[test]
fn six_failures_within_the_window_pause_any_run() {
    let decisions = |seconds_apart: u64| {
        let mut policy = RestartPolicy::default();
        (0..20)
            .map(|failure| {
                let now = START.plus(Duration::from_secs(failure * seconds_apart));
                policy.failed(now, Duration::zero())
            })
            .collect::<Vec<_>>()
    };
    // Six seconds apart, the sixth failure is thirty seconds after the first.
    for (failure, decision) in decisions(6).into_iter().enumerate() {
        assert_eq!(decision == RestartDecision::Paused, failure >= 5);
    }
    // Seven seconds apart, at most five lie in a window.
    for (failure, decision) in decisions(7).into_iter().enumerate() {
        let millis = [250, 500, 1_000, 2_000, 4_000, 8_000][failure.min(5)];
        assert_eq!(
            decision,
            RestartDecision::Backoff(Duration::from_millis(millis))
        );
    }
}
