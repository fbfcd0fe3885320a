//! The poll engine: poll, then either finish or sleep and poll again, until
//! the condition is met, fails terminally, or the timeout expires.
//!
//! The engine is a state machine. Its caller polls the probe, measures the
//! time since the wait began, and hands both to [`step`], which says whether
//! the wait is over and, if not, how long to sleep before the next poll.
//! All durations are whole nanoseconds.

use vstd::prelude::*;

use crate::probe::{ProbeResult, Report};

verus! {

/// How long to sleep between polls.
#[derive(Clone, Copy)]
pub enum IntervalPolicy {
    /// The same interval every time.
    Fixed(u64),
    /// Start at `start` and multiply by `factor_num / factor_den` after every
    /// sleep, never exceeding `cap`.
    Adaptive { start: u64, factor_num: u64, factor_den: u64, cap: u64 },
}

impl IntervalPolicy {
    /// Whether the growth factor of an adaptive policy is well defined.
    pub open spec fn valid(self) -> bool {
        match self {
            IntervalPolicy::Fixed(_) => true,
            IntervalPolicy::Adaptive { factor_den, .. } => factor_den > 0,
        }
    }

    pub open spec fn spec_initial(self) -> u64 {
        match self {
            IntervalPolicy::Fixed(d) => d,
            IntervalPolicy::Adaptive { start, .. } => start,
        }
    }

    pub open spec fn spec_next(self, current: u64) -> u64 {
        match self {
            IntervalPolicy::Fixed(d) => d,
            IntervalPolicy::Adaptive { factor_num, factor_den, cap, .. } => {
                let grown: int = (current * factor_num) / (factor_den as int);
                if grown < cap {
                    grown as u64
                } else {
                    cap
                }
            },
        }
    }

    /// The interval before the second poll.
    pub fn initial(&self) -> (res: u64)
        ensures
            res == self.spec_initial(),
    {
        match self {
            IntervalPolicy::Fixed(d) => *d,
            IntervalPolicy::Adaptive { start, .. } => *start,
        }
    }

    /// The interval after `current`.
    pub fn next(&self, current: u64) -> (res: u64)
        requires
            self.valid(),
        ensures
            res == self.spec_next(current),
    {
        match self {
            IntervalPolicy::Fixed(d) => *d,
            IntervalPolicy::Adaptive { factor_num, factor_den, cap, .. } => {
                proof {
                    vstd::arithmetic::mul::lemma_mul_upper_bound(
                        current as int,
                        u64::MAX as int,
                        *factor_num as int,
                        u64::MAX as int,
                    );
                    assert(u64::MAX * u64::MAX < u128::MAX);
                }
                let product: u128 = (current as u128) * (*factor_num as u128);
                let grown: u128 = product / (*factor_den as u128);
                if grown < (*cap as u128) {
                    grown as u64
                } else {
                    *cap
                }
            },
        }
    }
}

/// Timeout and interval policy of one wait.
pub struct EngineConfig {
    pub timeout: u64,
    pub interval: IntervalPolicy,
}

/// How a wait ended.
pub enum EngineOutcome {
    Met { report: Report, waited: u64, polls: u32 },
    Failed { report: Report, waited: u64, polls: u32 },
    Timeout { last_note: Option<String>, waited: u64, polls: u32 },
}

/// What the engine remembers between polls.
pub struct EngineState {
    /// Polls performed so far.
    pub polls: u32,
    /// The sleep before the next poll, before clamping to the deadline.
    pub interval: u64,
    /// The most recent note of a pending result.
    pub last_note: Option<String>,
}

/// What to do after a poll.
pub enum Step {
    /// The wait is over.
    Finished(EngineOutcome),
    /// Sleep `sleep` nanoseconds, then poll again from `state`.
    Sleep { sleep: u64, state: EngineState },
}

/// The state before the first poll.
pub open spec fn initial_state(cfg: EngineConfig) -> EngineState {
    EngineState { polls: 0, interval: cfg.interval.spec_initial(), last_note: None }
}

/// The decision after a poll that returned `result` when `elapsed`
/// nanoseconds had passed since the wait began.
pub open spec fn engine_step(cfg: EngineConfig, state: EngineState, result: ProbeResult, elapsed: u64) -> Step {
    let polls = (state.polls + 1) as u32;
    match result {
        ProbeResult::Met(report) => Step::Finished(EngineOutcome::Met { report, waited: elapsed, polls }),
        ProbeResult::Failed(report) => Step::Finished(
            EngineOutcome::Failed { report, waited: elapsed, polls },
        ),
        ProbeResult::Pending { note } => {
            let last_note = if note is Some {
                note
            } else {
                state.last_note
            };
            if elapsed >= cfg.timeout {
                Step::Finished(EngineOutcome::Timeout { last_note, waited: elapsed, polls })
            } else {
                let remaining = (cfg.timeout - elapsed) as u64;
                Step::Sleep {
                    sleep: if state.interval < remaining {
                        state.interval
                    } else {
                        remaining
                    },
                    state: EngineState {
                        polls,
                        interval: cfg.interval.spec_next(state.interval),
                        last_note,
                    },
                }
            }
        },
    }
}

impl EngineState {
    /// The state before the first poll.
    pub fn start(cfg: &EngineConfig) -> (res: EngineState)
        ensures
            res == initial_state(*cfg),
    {
        EngineState { polls: 0, interval: cfg.interval.initial(), last_note: None }
    }
}

/// Decides what follows a poll that returned `result`, `elapsed`
/// nanoseconds after the wait began: a met or failed result ends the wait
/// at once; a pending one ends it when the timeout has passed, and otherwise
/// asks for a sleep of the current interval, clamped so that the next poll
/// lands no later than the deadline.
pub fn step(cfg: &EngineConfig, state: EngineState, result: ProbeResult, elapsed: u64) -> (res: Step)
    requires
        cfg.interval.valid(),
        state.polls < u32::MAX,
    ensures
        res == engine_step(*cfg, state, result, elapsed),
{
    let polls = state.polls + 1;
    match result {
        ProbeResult::Met(report) => Step::Finished(EngineOutcome::Met { report, waited: elapsed, polls }),
        ProbeResult::Failed(report) => Step::Finished(
            EngineOutcome::Failed { report, waited: elapsed, polls },
        ),
        ProbeResult::Pending { note } => {
            let last_note = if note.is_some() {
                note
            } else {
                state.last_note
            };
            if elapsed >= cfg.timeout {
                Step::Finished(EngineOutcome::Timeout { last_note, waited: elapsed, polls })
            } else {
                let remaining = cfg.timeout - elapsed;
                let sleep = if state.interval < remaining {
                    state.interval
                } else {
                    remaining
                };
                let interval = cfg.interval.next(state.interval);
                Step::Sleep { sleep, state: EngineState { polls, interval, last_note } }
            }
        },
    }
}

/// Never oversleeps: a sleep the engine asks for is at most the current
/// interval and ends no later than the deadline.
pub proof fn lemma_sleep_ends_by_deadline(
    cfg: EngineConfig,
    state: EngineState,
    result: ProbeResult,
    elapsed: u64,
)
    ensures
        engine_step(cfg, state, result, elapsed) matches Step::Sleep { sleep, .. } ==> {
            &&& elapsed + sleep <= cfg.timeout
            &&& sleep <= state.interval
            &&& elapsed < cfg.timeout
        },
{
}

/// A met or failed result ends the wait whatever the time, and a pending
/// result ends it exactly when the timeout has passed.
pub proof fn lemma_when_the_wait_ends(
    cfg: EngineConfig,
    state: EngineState,
    result: ProbeResult,
    elapsed: u64,
)
    ensures
        result is Met ==> engine_step(cfg, state, result, elapsed) matches Step::Finished(
            EngineOutcome::Met { .. },
        ),
        result is Failed ==> engine_step(cfg, state, result, elapsed) matches Step::Finished(
            EngineOutcome::Failed { .. },
        ),
        result is Pending ==> (engine_step(cfg, state, result, elapsed) is Finished <==> elapsed
            >= cfg.timeout),
        result is Pending && elapsed >= cfg.timeout ==> engine_step(
            cfg,
            state,
            result,
            elapsed,
        ) matches Step::Finished(EngineOutcome::Timeout { .. }),
{
}

/// Every poll is counted: the outcome or the next state carries one more
/// poll than the state before it.
pub proof fn lemma_polls_counted(cfg: EngineConfig, state: EngineState, result: ProbeResult, elapsed: u64)
    requires
        state.polls < u32::MAX,
    ensures
        match engine_step(cfg, state, result, elapsed) {
            Step::Finished(EngineOutcome::Met { polls, .. }) => polls == state.polls + 1,
            Step::Finished(EngineOutcome::Failed { polls, .. }) => polls == state.polls + 1,
            Step::Finished(EngineOutcome::Timeout { polls, .. }) => polls == state.polls + 1,
            Step::Sleep { state: next, .. } => next.polls == state.polls + 1,
        },
{
}

/// The note a timeout reports is the most recent one: a pending result
/// with a note replaces the remembered note, one without keeps it.
pub proof fn lemma_last_note_is_latest(
    cfg: EngineConfig,
    state: EngineState,
    note: Option<String>,
    elapsed: u64,
)
    ensures
        ({
            let kept = if note is Some {
                note
            } else {
                state.last_note
            };
            match engine_step(cfg, state, ProbeResult::Pending { note }, elapsed) {
                Step::Finished(EngineOutcome::Timeout { last_note, .. }) => last_note == kept,
                Step::Sleep { state: next, .. } => next.last_note == kept,
                _ => false,
            }
        }),
{
}

/// Adaptive backoff grows and caps: from an interval at most the cap, a
/// factor of at least one gives a next interval no smaller and still at most
/// the cap. A fixed policy always gives its own interval.
pub proof fn lemma_backoff_grows_and_caps(policy: IntervalPolicy, current: u64)
    requires
        policy.valid(),
    ensures
        policy matches IntervalPolicy::Fixed(d) ==> policy.spec_next(current) == d,
        policy matches IntervalPolicy::Adaptive { factor_num, factor_den, cap, .. } ==> {
            &&& policy.spec_next(current) <= cap
            &&& (factor_num >= factor_den && current <= cap) ==> current <= policy.spec_next(
                current,
            )
        },
{
    match policy {
        IntervalPolicy::Fixed(_) => {},
        IntervalPolicy::Adaptive { factor_num, factor_den, cap, .. } => {
            if factor_num >= factor_den {
                assert(current * factor_num >= current * factor_den) by (nonlinear_arith)
                    requires
                        factor_num >= factor_den,
                ;
                assert(current * factor_den / factor_den as int == current) by {
                    vstd::arithmetic::div_mod::lemma_div_multiples_vanish(
                        current as int,
                        factor_den as int,
                    );
                    assert(current * factor_den == factor_den * current) by (nonlinear_arith);
                }
                vstd::arithmetic::div_mod::lemma_div_is_ordered(
                    current * factor_den,
                    current * factor_num,
                    factor_den as int,
                );
            }
        },
    }
}

/// The outcome of a wait run from `state`, `elapsed` nanoseconds after it
/// began, when its polls return `results` in turn and time moves on by
/// exactly the sleeps the engine asks for; `None` when the results run out
/// before the wait ends.
pub open spec fn run_from(cfg: EngineConfig, state: EngineState, elapsed: u64, results: Seq<ProbeResult>) -> Option<
    EngineOutcome,
>
    decreases results.len(),
{
    if results.len() == 0 {
        None
    } else {
        match engine_step(cfg, state, results[0], elapsed) {
            Step::Finished(outcome) => Some(outcome),
            Step::Sleep { sleep, state: next } => run_from(
                cfg,
                next,
                (elapsed + sleep) as u64,
                results.drop_first(),
            ),
        }
    }
}

/// How long a wait had been going when it ended.
pub open spec fn waited_of(outcome: EngineOutcome) -> u64 {
    match outcome {
        EngineOutcome::Met { waited, .. } => waited,
        EngineOutcome::Failed { waited, .. } => waited,
        EngineOutcome::Timeout { waited, .. } => waited,
    }
}

/// A whole wait never runs past its timeout: whatever the polls return, it
/// ends no later than the deadline, and a timeout ends exactly on it.
pub proof fn lemma_run_never_oversleeps(
    cfg: EngineConfig,
    state: EngineState,
    elapsed: u64,
    results: Seq<ProbeResult>,
)
    requires
        elapsed <= cfg.timeout,
    ensures
        run_from(cfg, state, elapsed, results) matches Some(outcome) ==> {
            &&& waited_of(outcome) <= cfg.timeout
            &&& outcome is Timeout ==> waited_of(outcome) == cfg.timeout
        },
    decreases results.len(),
{
    if results.len() > 0 {
        lemma_sleep_ends_by_deadline(cfg, state, results[0], elapsed);
        match engine_step(cfg, state, results[0], elapsed) {
            Step::Finished(_) => {},
            Step::Sleep { sleep, state: next } => {
                lemma_run_never_oversleeps(cfg, next, (elapsed + sleep) as u64, results.drop_first());
            },
        }
    }
}

/// Whether every interval `policy` gives is at least `delta`: a fixed
/// interval of at least `delta`, or an adaptive one that starts and caps at
/// least at `delta` and never shrinks.
pub open spec fn keeps_at_least(policy: IntervalPolicy, delta: u64) -> bool {
    match policy {
        IntervalPolicy::Fixed(d) => d >= delta,
        IntervalPolicy::Adaptive { start, factor_num, factor_den, cap } => factor_den > 0 && factor_num
            >= factor_den && start >= delta && cap >= delta,
    }
}

/// The number of polls a wait with `remaining` nanoseconds left needs at
/// most, when every interval is at least `delta`: one for the deadline
/// itself, and one for every `delta` before it, rounded up.
pub open spec fn polls_needed(remaining: int, delta: int) -> int {
    if remaining <= 0 {
        1
    } else {
        (remaining - 1) / delta + 2
    }
}

proof fn lemma_next_keeps_at_least(policy: IntervalPolicy, delta: u64, current: u64)
    requires
        keeps_at_least(policy, delta),
        current >= delta,
    ensures
        policy.spec_next(current) >= delta,
{
    lemma_backoff_grows_and_caps(policy, current);
    match policy {
        IntervalPolicy::Fixed(_) => {},
        IntervalPolicy::Adaptive { factor_num, factor_den, cap, .. } => {
            if current > cap {
                assert(current * factor_num >= current * factor_den) by (nonlinear_arith)
                    requires
                        factor_num >= factor_den,
                ;
                assert(current * factor_den / factor_den as int == current) by {
                    vstd::arithmetic::div_mod::lemma_div_multiples_vanish(current as int, factor_den as int);
                    assert(current * factor_den == factor_den * current) by (nonlinear_arith);
                }
                vstd::arithmetic::div_mod::lemma_div_is_ordered(
                    current * factor_den,
                    current * factor_num,
                    factor_den as int,
                );
            }
        },
    }
}

proof fn lemma_run_ends_from(cfg: EngineConfig, state: EngineState, elapsed: u64, results: Seq<ProbeResult>, delta: u64)
    requires
        delta > 0,
        keeps_at_least(cfg.interval, delta),
        state.interval >= delta,
        elapsed <= cfg.timeout,
        results.len() >= polls_needed(cfg.timeout - elapsed, delta as int),
    ensures
        run_from(cfg, state, elapsed, results) is Some,
    decreases cfg.timeout - elapsed,
{
    assert(results.len() > 0);
    lemma_sleep_ends_by_deadline(cfg, state, results[0], elapsed);
    match engine_step(cfg, state, results[0], elapsed) {
        Step::Finished(_) => {},
        Step::Sleep { sleep, state: next } => {
            let r: int = cfg.timeout - elapsed;
            let r2: int = r - sleep;
            assert(r > 0);
            assert(next.interval == cfg.interval.spec_next(state.interval));
            lemma_next_keeps_at_least(cfg.interval, delta, state.interval);
            if r2 == 0 {
                assert(polls_needed(r2, delta as int) == 1);
                assert((r - 1) / (delta as int) >= 0) by (nonlinear_arith)
                    requires
                        r >= 1,
                        delta > 0,
                ;
            } else {
                assert(sleep == state.interval);
                assert(sleep >= delta);
                assert((r2 - 1) / (delta as int) + 1 <= (r - 1) / (delta as int)) by {
                    vstd::arithmetic::div_mod::lemma_div_is_ordered(r2 - 1, r - 1 - delta, delta as int);
                    vstd::arithmetic::div_mod::lemma_fundamental_div_mod(r - 1 - delta, delta as int);
                    vstd::arithmetic::div_mod::lemma_fundamental_div_mod(r - 1, delta as int);
                    assert((r - 1) / (delta as int) == (r - 1 - delta) / (delta as int) + 1) by {
                        vstd::arithmetic::div_mod::lemma_div_plus_one(r - 1 - delta, delta as int);
                    }
                }
            }
            assert(results.drop_first().len() >= polls_needed(r2, delta as int));
            lemma_run_ends_from(cfg, next, (elapsed + sleep) as u64, results.drop_first(), delta);
        },
    }
}

/// A wait ends within a bounded number of polls: when every interval is at
/// least `delta` nanoseconds, a wait from its start ends by poll
/// `ceil(timeout / delta) + 1`, whatever the polls return, and it never
/// runs past its timeout.
pub proof fn lemma_run_ends_within_bound(cfg: EngineConfig, results: Seq<ProbeResult>, delta: u64)
    requires
        delta > 0,
        keeps_at_least(cfg.interval, delta),
        results.len() >= polls_needed(cfg.timeout as int, delta as int),
    ensures
        run_from(cfg, initial_state(cfg), 0, results) matches Some(outcome) && waited_of(outcome)
            <= cfg.timeout && (outcome is Timeout ==> waited_of(outcome) == cfg.timeout),
{
    lemma_run_ends_from(cfg, initial_state(cfg), 0, results, delta);
    lemma_run_never_oversleeps(cfg, initial_state(cfg), 0, results);
}

/// The sleeps a wait run as in [`run_from`] asks for, in order.
pub open spec fn sleeps_from(cfg: EngineConfig, state: EngineState, elapsed: u64, results: Seq<ProbeResult>) -> Seq<u64>
    decreases results.len(),
{
    if results.len() == 0 {
        Seq::empty()
    } else {
        match engine_step(cfg, state, results[0], elapsed) {
            Step::Finished(_) => Seq::empty(),
            Step::Sleep { sleep, state: next } => seq![sleep] + sleeps_from(
                cfg,
                next,
                (elapsed + sleep) as u64,
                results.drop_first(),
            ),
        }
    }
}

/// The sum of durations.
pub open spec fn total(s: Seq<u64>) -> int
    decreases s.len(),
{
    if s.len() == 0 {
        0
    } else {
        s[0] + total(s.drop_first())
    }
}

/// The interval a policy gives after `n` sleeps that started at `current`.
pub open spec fn interval_after(policy: IntervalPolicy, current: u64, n: nat) -> u64
    decreases n,
{
    if n == 0 {
        current
    } else {
        interval_after(policy, policy.spec_next(current), (n - 1) as nat)
    }
}

/// The smaller of an interval and the time left.
pub open spec fn clamped(interval: u64, remaining: int) -> int {
    if interval < remaining {
        interval as int
    } else {
        remaining
    }
}

/// The note of the last of `results` that is pending with a note, or
/// `prev` when none is.
pub open spec fn latest_note(prev: Option<String>, results: Seq<ProbeResult>) -> Option<String>
    decreases results.len(),
{
    if results.len() == 0 {
        prev
    } else {
        let kept = match results[0] {
            ProbeResult::Pending { note: Some(n) } => Some(n),
            _ => prev,
        };
        latest_note(kept, results.drop_first())
    }
}

/// How many polls a wait had made when it ended.
pub open spec fn polls_of(outcome: EngineOutcome) -> u32 {
    match outcome {
        EngineOutcome::Met { polls, .. } => polls,
        EngineOutcome::Failed { polls, .. } => polls,
        EngineOutcome::Timeout { polls, .. } => polls,
    }
}

proof fn lemma_prepend(a: u64, t: Seq<u64>, i: int)
    requires
        1 <= i <= t.len() + 1,
    ensures
        (seq![a] + t).take(i) == seq![a] + t.take(i - 1),
        total(seq![a] + t.take(i - 1)) == a + total(t.take(i - 1)),
        total(seq![a] + t) == a + total(t),
{
    assert((seq![a] + t).take(i) =~= seq![a] + t.take(i - 1));
    assert((seq![a] + t.take(i - 1)).drop_first() =~= t.take(i - 1));
    assert((seq![a] + t).drop_first() =~= t);
}

/// A whole wait, poll by poll: every poll before the last returned pending;
/// the i-th sleep is the i-th interval of the policy, clamped to the time
/// left; the wait lasts exactly its sleeps and counts one poll more than it
/// slept; a met or failed poll ends it with that poll's report, and a
/// timeout reports the note of the latest pending poll that had one.
pub proof fn lemma_whole_run(cfg: EngineConfig, state: EngineState, elapsed: u64, results: Seq<ProbeResult>)
    requires
        elapsed <= cfg.timeout,
        state.polls + results.len() < u32::MAX,
    ensures
        run_from(cfg, state, elapsed, results) matches Some(outcome) ==> {
            let s = sleeps_from(cfg, state, elapsed, results);
            let n = s.len() as int;
            &&& n < results.len()
            &&& forall|i: int| 0 <= i < n ==> #[trigger] results[i] is Pending
            &&& forall|i: int|
                0 <= i < n ==> #[trigger] s[i] == clamped(
                    interval_after(cfg.interval, state.interval, i as nat),
                    cfg.timeout - (elapsed + total(s.take(i))),
                )
            &&& waited_of(outcome) == elapsed + total(s)
            &&& polls_of(outcome) == state.polls + n + 1
            &&& match outcome {
                EngineOutcome::Met { report, .. } => results[n] == ProbeResult::Met(report),
                EngineOutcome::Failed { report, .. } => results[n] == ProbeResult::Failed(report),
                EngineOutcome::Timeout { last_note, .. } => results[n] is Pending && last_note
                    == latest_note(state.last_note, results.take(n + 1)),
            }
        },
    decreases results.len(),
{
    if results.len() > 0 {
        lemma_sleep_ends_by_deadline(cfg, state, results[0], elapsed);
        match engine_step(cfg, state, results[0], elapsed) {
            Step::Finished(outcome) => {
                assert(sleeps_from(cfg, state, elapsed, results).len() == 0);
                let one = results.take(1);
                assert(one.drop_first() =~= Seq::<ProbeResult>::empty());
                assert(one[0] == results[0]);
                assert(latest_note(state.last_note, one) == latest_note(
                    match results[0] {
                        ProbeResult::Pending { note: Some(n) } => Some(n),
                        _ => state.last_note,
                    },
                    one.drop_first(),
                ));
                assert(total(Seq::<u64>::empty()) == 0);
            },
            Step::Sleep { sleep, state: next } => {
                let rest = results.drop_first();
                let e2 = (elapsed + sleep) as u64;
                lemma_whole_run(cfg, next, e2, rest);
                if run_from(cfg, state, elapsed, results) is Some {
                    let t = sleeps_from(cfg, next, e2, rest);
                    let s = sleeps_from(cfg, state, elapsed, results);
                    let n = s.len() as int;
                    assert(s == seq![sleep] + t);
                    lemma_prepend(sleep, t, 1);
                    assert(total(s.take(0)) == 0) by {
                        assert(s.take(0) =~= Seq::<u64>::empty());
                    }
                    assert forall|i: int| 0 <= i < n implies #[trigger] results[i] is Pending by {
                        if i > 0 {
                            assert(results[i] == rest[i - 1]);
                        }
                    }
                    assert forall|i: int| 0 <= i < n implies #[trigger] s[i] == clamped(
                        interval_after(cfg.interval, state.interval, i as nat),
                        cfg.timeout - (elapsed + total(s.take(i))),
                    ) by {
                        if i > 0 {
                            lemma_prepend(sleep, t, i);
                            assert(s[i] == t[i - 1]);
                            assert(interval_after(cfg.interval, state.interval, i as nat) == interval_after(
                                cfg.interval,
                                next.interval,
                                (i - 1) as nat,
                            ));
                        }
                    }
                    assert(results[n] == rest[n - 1]);
                    assert(results.take(n + 1).drop_first() =~= rest.take(n));
                }
            },
        }
    }
}


/// Adaptive growth is the current interval times the factor, rounded down,
/// unless that reaches the cap, which is then the next interval.
pub proof fn lemma_growth_is_the_factor(policy: IntervalPolicy, current: u64)
    requires
        policy.valid(),
        policy is Adaptive,
    ensures
        ({
            let next = policy.spec_next(current);
            let num = policy->factor_num;
            let den = policy->factor_den;
            let cap = policy->cap;
            &&& next <= cap
            &&& next < cap ==> next * den <= current * num < (next + 1) * den
            &&& next == cap ==> cap * den <= current * num + den - 1
        }),
{
    let num = policy->factor_num;
    let den = policy->factor_den;
    let cap = policy->cap;
    let q = (current * num) / (den as int);
    vstd::arithmetic::div_mod::lemma_fundamental_div_mod(current * num, den as int);
    vstd::arithmetic::div_mod::lemma_mod_bound(current * num, den as int);
    assert(q * den <= current * num < (q + 1) * den) by (nonlinear_arith)
        requires
            current * num == den * q + (current * num) % (den as int),
            0 <= (current * num) % (den as int) < den,
    ;
    if q >= cap {
        assert(cap * den <= q * den) by (nonlinear_arith)
            requires
                q >= cap,
                den > 0,
        ;
    }
}

} // verus!


