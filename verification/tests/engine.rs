use std::collections::VecDeque;

use tarry::engine::{step, EngineConfig, EngineOutcome, EngineState, IntervalPolicy, Step};
use tarry::json::Json;
use tarry::probe::{ProbeResult, Report};

/// A clock that only moves when the engine sleeps.
struct FakeClock {
    now: u64,
    sleeps: Vec<u64>,
}

impl FakeClock {
    fn new() -> Self {
        FakeClock { now: 1_000_000, sleeps: Vec::new() }
    }
}

/// Drives the engine over scripted poll results, as the binary drives it
/// over a real probe; once the script runs out every poll is pending.
fn run(results: Vec<ProbeResult>, cfg: &EngineConfig, clock: &mut FakeClock) -> EngineOutcome {
    let mut results: VecDeque<ProbeResult> = results.into();
    let start = clock.now;
    let mut state = EngineState::start(cfg);
    loop {
        let result = results.pop_front().unwrap_or(ProbeResult::Pending { note: None });
        let elapsed = clock.now - start;
        match step(cfg, state, result, elapsed) {
            Step::Finished(outcome) => return outcome,
            Step::Sleep { sleep, state: next } => {
                clock.now += sleep;
                clock.sleeps.push(sleep);
                state = next;
            }
        }
    }
}

fn secs(s: u64) -> u64 {
    s * 1_000_000_000
}

fn ms(n: u64) -> u64 {
    n * 1_000_000
}

fn met() -> ProbeResult {
    ProbeResult::Met(Report { summary: "ok".into(), detail: Json::Object(vec![]) })
}

fn pending(note: Option<&str>) -> ProbeResult {
    ProbeResult::Pending { note: note.map(String::from) }
}

fn cfg(timeout_s: u64, interval: IntervalPolicy) -> EngineConfig {
    EngineConfig { timeout: secs(timeout_s), interval }
}

#[test]
fn already_met_returns_immediately_without_sleeping() {
    let mut clock = FakeClock::new();
    let out = run(vec![met()], &cfg(600, IntervalPolicy::Fixed(secs(10))), &mut clock);
    match out {
        EngineOutcome::Met { polls, .. } => assert_eq!(polls, 1),
        _ => panic!("expected Met"),
    }
    assert!(clock.sleeps.is_empty());
}

#[test]
fn pending_then_met_sleeps_between_polls() {
    let mut clock = FakeClock::new();
    let out = run(
        vec![pending(None), pending(None), met()],
        &cfg(600, IntervalPolicy::Fixed(secs(10))),
        &mut clock,
    );
    match out {
        EngineOutcome::Met { polls, waited, .. } => {
            assert_eq!(polls, 3);
            assert_eq!(waited, secs(20));
        }
        _ => panic!("expected Met"),
    }
    assert_eq!(clock.sleeps.len(), 2);
}

#[test]
fn adaptive_backoff_grows_and_caps() {
    let mut clock = FakeClock::new();
    let policy = IntervalPolicy::Adaptive { start: secs(2), factor_num: 2, factor_den: 1, cap: secs(5) };
    run(
        vec![pending(None), pending(None), pending(None), pending(None), met()],
        &cfg(600, policy),
        &mut clock,
    );
    assert_eq!(clock.sleeps, vec![secs(2), secs(4), secs(5), secs(5)]);
}

#[test]
fn timeout_returns_last_note_and_never_oversleeps() {
    let mut clock = FakeClock::new();
    let out = run(
        vec![pending(Some("503 from server")), pending(None)],
        &cfg(15, IntervalPolicy::Fixed(secs(10))),
        &mut clock,
    );
    match out {
        EngineOutcome::Timeout { last_note, waited, polls } => {
            assert_eq!(last_note.as_deref(), Some("503 from server"));
            assert_eq!(waited, secs(15));
            assert_eq!(polls, 3);
        }
        _ => panic!("expected Timeout"),
    }
    // Second sleep is clamped to the 5s remaining, not the full 10s interval.
    assert_eq!(clock.sleeps, vec![secs(10), secs(5)]);
}

#[test]
fn failed_is_terminal() {
    let mut clock = FakeClock::new();
    let out = run(
        vec![
            pending(None),
            ProbeResult::Failed(Report {
                summary: "run concluded failure".into(),
                detail: Json::Object(vec![("conclusion".into(), Json::Str("failure".into()))]),
            }),
            met(),
        ],
        &cfg(600, IntervalPolicy::Fixed(secs(1))),
        &mut clock,
    );
    match out {
        EngineOutcome::Failed { polls, .. } => assert_eq!(polls, 2),
        _ => panic!("expected Failed"),
    }
}

#[test]
fn adaptive_interval_grows_by_a_ratio() {
    let policy = IntervalPolicy::Adaptive { start: 2_000, factor_num: 3, factor_den: 2, cap: 30_000 };
    assert_eq!(policy.initial(), 2_000);
    assert_eq!(policy.next(2_000), 3_000);
    assert_eq!(policy.next(3_000), 4_500);
    assert_eq!(policy.next(25_000), 30_000);
    assert_eq!(IntervalPolicy::Fixed(7).next(99), 7);
}

#[test]
fn step_at_deadline_times_out_without_sleeping() {
    let config = cfg(10, IntervalPolicy::Fixed(secs(3)));
    let state = EngineState { polls: 4, interval: secs(3), last_note: Some("old".into()) };
    match step(&config, state, pending(None), secs(10)) {
        Step::Finished(EngineOutcome::Timeout { last_note, waited, polls }) => {
            assert_eq!(last_note.as_deref(), Some("old"));
            assert_eq!(waited, secs(10));
            assert_eq!(polls, 5);
        }
        _ => panic!("expected a timeout"),
    }
}

#[test]
fn step_replaces_note_and_clamps_sleep() {
    let config = cfg(10, IntervalPolicy::Fixed(secs(3)));
    let state = EngineState { polls: 0, interval: secs(3), last_note: Some("old".into()) };
    match step(&config, state, pending(Some("new")), secs(9)) {
        Step::Sleep { sleep, state } => {
            assert_eq!(sleep, secs(1));
            assert_eq!(state.polls, 1);
            assert_eq!(state.last_note.as_deref(), Some("new"));
        }
        _ => panic!("expected a sleep"),
    }
}

#[test]
fn a_pending_wait_ends_on_the_deadline_within_the_poll_bound() {
    // Every interval is at least 300 ms, so a 1000 ms wait ends by poll
    // ceil(1000 / 300) + 1 = 5, exactly on its deadline.
    let mut clock = FakeClock::new();
    let policy = IntervalPolicy::Adaptive { start: ms(300), factor_num: 3, factor_den: 2, cap: ms(400) };
    match run(vec![], &EngineConfig { timeout: ms(1_000), interval: policy }, &mut clock) {
        EngineOutcome::Timeout { waited, polls, .. } => {
            assert_eq!(waited, ms(1_000));
            assert!(polls <= 5);
            assert_eq!(polls, 4);
        }
        _ => panic!("expected Timeout"),
    }
    assert_eq!(clock.sleeps, vec![ms(300), ms(400), ms(300)]);
}

#[test]
fn durations_keep_their_nanoseconds() {
    // A sub-millisecond interval is slept as given, and the last sleep is
    // clamped to the nanosecond so the final poll lands on the deadline.
    let mut clock = FakeClock::new();
    let config = EngineConfig { timeout: 4_000_000, interval: IntervalPolicy::Fixed(1_500_001) };
    match run(vec![pending(Some("a")), pending(None), pending(Some("b")), pending(None)], &config, &mut clock) {
        EngineOutcome::Timeout { waited, polls, last_note } => {
            assert_eq!(waited, 4_000_000);
            assert_eq!(polls, 4);
            assert_eq!(last_note.as_deref(), Some("b"));
        }
        _ => panic!("expected Timeout"),
    }
    assert_eq!(clock.sleeps, vec![1_500_001, 1_500_001, 999_998]);
}
