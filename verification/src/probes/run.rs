//! Waiting for a GitHub Actions run to complete.

use vstd::prelude::*;

use crate::json::{json_view, members_view, Json, JsonValue};
use crate::probe::{Observation, ProbeResult, Report};
use crate::probes::gh::{
    gh_error_message, step_pairs, timestamp_seconds, GhClient, GhError, RunSummary, RunView,
    parse_rfc3339_to_epoch,
};
use crate::text::{
    chars_of, decimal, join, join_lines, line_views, lines, lines_of, push_all, push_decimal,
    push_string, str_is, string_of,
};

verus! {

/// At most this many lines of the failed log go into a digest.
pub const DIGEST_LINE_LIMIT: usize = 20;

/// How many seconds before the wait began a *completed* run may have been
/// created and still be treated as "the run we are waiting on" rather than
/// a stale prior run. Covers clock skew and a short gap between triggering a
/// workflow and invoking the wait; comfortably below the age of any previous
/// run.
pub const STALE_GRACE: u64 = 120;

/// A wait on one GitHub Actions run.
pub struct RunProbe<G: GhClient> {
    pub gh: G,
    pub repo: Option<String>,
    pub branch: Option<String>,
    pub workflow: Option<String>,
    pub run_id: Option<u64>,
    /// Seconds since the Unix epoch at which the wait began. A completed run
    /// created before this (minus [`STALE_GRACE`]) is a stale prior run and
    /// is skipped while resolving the latest run.
    pub started_at: i64,
}

/// The digest line of a failed step.
pub open spec fn step_line(job: Seq<char>, step: Seq<char>) -> Seq<char> {
    "job: "@ + job + ", step: "@ + step
}

/// The digest lines of the failed steps.
pub open spec fn step_lines(steps: Seq<(Seq<char>, Seq<char>)>) -> Seq<Seq<char>> {
    Seq::new(steps.len(), |i: int| step_line(steps[i].0, steps[i].1))
}

/// The last [`DIGEST_LINE_LIMIT`] lines of a log.
pub open spec fn log_tail(log: Seq<char>) -> Seq<Seq<char>> {
    let ls = lines_of(log);
    if ls.len() > DIGEST_LINE_LIMIT {
        ls.skip(ls.len() - DIGEST_LINE_LIMIT)
    } else {
        ls
    }
}

/// The failure digest of a run and whether its log was clipped: one line
/// per failed step, then the last lines of the failed log, or a line saying
/// why the log is unavailable.
pub open spec fn digest_spec(steps: Seq<(Seq<char>, Seq<char>)>, log: Result<String, GhError>) -> (
    Seq<char>,
    bool,
) {
    match log {
        Ok(l) => (join_lines(step_lines(steps) + log_tail(l@)), lines_of(l@).len() > DIGEST_LINE_LIMIT),
        Err(e) => (
            join_lines(
                step_lines(steps).push("(failed log unavailable: "@ + gh_error_message(e) + ")"@),
            ),
            false,
        ),
    }
}

/// Whether a completed run created at `created_at` predates a wait begun
/// at `started_at` by more than [`STALE_GRACE`]. An unparseable timestamp is
/// never stale, so a format change cannot make the wait hang.
pub open spec fn stale_spec(created_at: Seq<char>, started_at: i64) -> bool {
    match timestamp_seconds(vstd::utf8::encode_utf8(created_at)) {
        Some(created) => created < started_at - STALE_GRACE,
        None => false,
    }
}

/// "run <id>" followed by `rest`.
pub open spec fn run_text(id: u64, rest: Seq<char>) -> Seq<char> {
    "run "@ + decimal(id as nat) + rest
}

/// What a view of run `id` says about the wait; `log` is what the failed
/// log request gave, consulted only when the run failed.
pub open spec fn view_outcome(id: u64, view: Result<RunView, GhError>, log: Result<String, GhError>) -> Observation {
    match view {
        Err(e) => Observation::Pending(Some(gh_error_message(e))),
        Ok(v) => if v.status@ != "completed"@ {
            Observation::Pending(Some(run_text(id, " is "@ + v.status@)))
        } else {
            let conclusion = match v.conclusion {
                Some(c) => c@,
                None => "unknown"@,
            };
            if conclusion == "success"@ {
                Observation::Met(
                    run_text(id, " concluded success"@),
                    JsonValue::Object(
                        seq![
                            ("run_id"@, JsonValue::Int(id as int)),
                            ("conclusion"@, JsonValue::Str("success"@)),
                            ("url"@, JsonValue::Str(v.url@)),
                        ],
                    ),
                )
            } else {
                let digest = digest_spec(step_pairs(v.failed_steps@), log);
                Observation::Failed(
                    run_text(id, " concluded "@ + conclusion),
                    JsonValue::Object(
                        seq![
                            ("run_id"@, JsonValue::Int(id as int)),
                            ("conclusion"@, JsonValue::Str(conclusion)),
                            ("url"@, JsonValue::Str(v.url@)),
                            ("digest"@, JsonValue::Str(digest.0)),
                            ("truncated"@, JsonValue::Bool(digest.1)),
                        ],
                    ),
                )
            }
        },
    }
}

/// One poll of a run wait: the run it is latched on afterwards, and what it
/// observed. `latest`, `view` and `log` are what the client answered to the
/// requests for the latest run, the run's state and its failed log; each is
/// consulted only when the poll makes that request.
///
/// Without a run id, the latest run is resolved first: a completed run
/// created before the wait began is stale and skipped without latching; a
/// live run is latched and reported as pending without a second request;
/// a completed current run is latched and viewed at once.
pub open spec fn poll_spec(
    run_id: Option<u64>,
    started_at: i64,
    latest: Result<RunSummary, GhError>,
    view: Result<RunView, GhError>,
    log: Result<String, GhError>,
) -> (Option<u64>, Observation) {
    match run_id {
        Some(id) => (Some(id), view_outcome(id, view, log)),
        None => match latest {
            Err(e) => (None, Observation::Pending(Some(gh_error_message(e)))),
            Ok(s) => if s.status@ == "completed"@ && stale_spec(s.created_at@, started_at) {
                (
                    None,
                    Observation::Pending(
                        Some(
                            "latest run "@ + decimal(s.id as nat)
                                + " predates this wait; awaiting a newer run"@,
                        ),
                    ),
                )
            } else if s.status@ != "completed"@ {
                (Some(s.id), Observation::Pending(Some(run_text(s.id, " is "@ + s.status@))))
            } else {
                (Some(s.id), view_outcome(s.id, view, log))
            },
        },
    }
}

/// The characters of an optional string.
pub open spec fn opt_string(o: Option<String>) -> Option<Seq<char>> {
    match o {
        Some(s) => Some(s@),
        None => None,
    }
}

/// Whether a view of a run calls for its failed log: the run completed and
/// did not succeed.
pub open spec fn needs_log(view: Result<RunView, GhError>) -> bool {
    match view {
        Ok(v) => v.status@ == "completed"@ && match v.conclusion {
            Some(c) => c@ != "success"@,
            None => true,
        },
        Err(_) => false,
    }
}

/// The run a poll asks the client to view, if any: the latched run, or,
/// when none is latched yet, the latest run once it is completed and not
/// stale.
pub open spec fn viewed_run(run_id: Option<u64>, started_at: i64, latest: Result<RunSummary, GhError>) -> Option<u64> {
    match run_id {
        Some(id) => Some(id),
        None => match latest {
            Ok(s) => if s.status@ == "completed"@ && !stale_spec(s.created_at@, started_at) {
                Some(s.id)
            } else {
                None
            },
            Err(_) => None,
        },
    }
}

/// Whether `latest`, `view` and `log` are answers the probe's client gives
/// to the requests one poll makes: the latest run of the probe's repository,
/// branch and workflow when no run is latched; the state of the run the
/// poll views, in the probe's repository; and that run's failed log when
/// the view calls for it.
pub open spec fn poll_answers<G: GhClient>(
    p: RunProbe<G>,
    latest: Result<RunSummary, GhError>,
    view: Result<RunView, GhError>,
    log: Result<String, GhError>,
) -> bool {
    let repo = opt_string(p.repo);
    &&& p.run_id is None ==> p.gh.latest_answer(repo, opt_string(p.branch), opt_string(p.workflow), latest)
    &&& match viewed_run(p.run_id, p.started_at, latest) {
        Some(id) => p.gh.view_answer(id, repo, view) && (needs_log(view) ==> p.gh.log_answer(id, repo, log)),
        None => true,
    }
}

/// The failure digest is bounded: at most [`DIGEST_LINE_LIMIT`] lines of
/// the log go in, they are its last lines, and the digest says it was
/// clipped exactly when the log had more.
pub proof fn lemma_digest_bounded(log: Seq<char>)
    ensures
        log_tail(log).len() <= DIGEST_LINE_LIMIT,
        log_tail(log) == lines_of(log).skip(lines_of(log).len() - log_tail(log).len()),
        (log_tail(log).len() < lines_of(log).len()) <==> lines_of(log).len() > DIGEST_LINE_LIMIT,
{
    if lines_of(log).len() <= DIGEST_LINE_LIMIT {
        assert(lines_of(log).skip(0) == lines_of(log));
    }
}

/// Only a red run fails a run wait: errors of the client and runs that are
/// not completed leave the wait pending, a successful run meets it, and the
/// only failing outcome is a completed run whose conclusion is not success.
pub proof fn lemma_only_red_runs_fail(
    run_id: Option<u64>,
    started_at: i64,
    latest: Result<RunSummary, GhError>,
    view: Result<RunView, GhError>,
    log: Result<String, GhError>,
)
    ensures
        poll_spec(run_id, started_at, latest, view, log).1 is Failed ==> (view matches Ok(v) && v.status@
            == "completed"@ && match v.conclusion {
            Some(c) => c@ != "success"@,
            None => true,
        }),
        view is Err ==> !(poll_spec(run_id, started_at, latest, view, log).1 is Failed),
        latest is Err && run_id is None ==> poll_spec(run_id, started_at, latest, view, log).1 is Pending,
{
    reveal_strlit("unknown");
    reveal_strlit("success");
}

/// Whether a run concluded "success".
pub open spec fn succeeded(v: RunView) -> bool {
    match v.conclusion {
        Some(c) => c@ == "success"@,
        None => false,
    }
}

/// What viewing a run says, whoever asked: an error of the client leaves
/// the wait pending with its message; a run that has not completed leaves
/// it pending as "run <id> is <status>"; a completed run meets the wait
/// exactly when it concluded "success", with the run's id, conclusion and
/// url as detail, and fails it otherwise.
proof fn lemma_view_decides(id: u64, view: Result<RunView, GhError>, log: Result<String, GhError>)
    ensures
        match view {
            Err(e) => view_outcome(id, view, log) == Observation::Pending(Some(gh_error_message(e))),
            Ok(v) => if v.status@ != "completed"@ {
                view_outcome(id, view, log) == Observation::Pending(
                    Some("run "@ + decimal(id as nat) + " is "@ + v.status@),
                )
            } else if succeeded(v) {
                view_outcome(id, view, log) == Observation::Met(
                    "run "@ + decimal(id as nat) + " concluded success"@,
                    JsonValue::Object(
                        seq![
                            ("run_id"@, JsonValue::Int(id as int)),
                            ("conclusion"@, JsonValue::Str("success"@)),
                            ("url"@, JsonValue::Str(v.url@)),
                        ],
                    ),
                )
            } else {
                view_outcome(id, view, log) is Failed
            },
        },
{
    reveal_strlit("unknown");
    reveal_strlit("success");
    match view {
        Err(e) => {
            assert(view_outcome(id, view, log) == Observation::Pending(Some(gh_error_message(e))));
        },
        Ok(v) => {
            assert("run "@ + decimal(id as nat) + " is "@ + v.status@ =~= run_text(id, " is "@ + v.status@));
            assert("unknown"@ != "success"@) by {
                assert("unknown"@[0] != "success"@[0]);
            }
            if v.status@ == "completed"@ {
                if let Some(c) = v.conclusion {
                    if c@ == "success"@ {
                        assert(view_outcome(id, view, log) is Met);
                    }
                }
            }
        },
    }
}

/// A poll on a latched run keeps it latched and reports what viewing it
/// says (see [`lemma_view_decides`]), whatever the latest run is.
pub proof fn lemma_latched_run_is_viewed(
    id: u64,
    started_at: i64,
    latest: Result<RunSummary, GhError>,
    view: Result<RunView, GhError>,
    log: Result<String, GhError>,
)
    ensures
        poll_spec(Some(id), started_at, latest, view, log).0 == Some(id),
        match view {
            Err(e) => poll_spec(Some(id), started_at, latest, view, log).1 == Observation::Pending(
                Some(gh_error_message(e)),
            ),
            Ok(v) => if v.status@ != "completed"@ {
                poll_spec(Some(id), started_at, latest, view, log).1 == Observation::Pending(
                    Some("run "@ + decimal(id as nat) + " is "@ + v.status@),
                )
            } else if succeeded(v) {
                poll_spec(Some(id), started_at, latest, view, log).1 is Met
            } else {
                poll_spec(Some(id), started_at, latest, view, log).1 is Failed
            },
        },
{
    lemma_view_decides(id, view, log);
}

/// A live latest run is never skipped as stale, however long before the
/// wait it was created: with no run latched, when the latest run has not
/// completed, the poll latches its id and reports it pending as
/// "run <id> is <status>".
pub proof fn lemma_live_run_is_latched(
    started_at: i64,
    s: RunSummary,
    view: Result<RunView, GhError>,
    log: Result<String, GhError>,
)
    requires
        s.status@ != "completed"@,
    ensures
        poll_spec(None, started_at, Ok(s), view, log) == (
            Some(s.id),
            Observation::Pending(Some("run "@ + decimal(s.id as nat) + " is "@ + s.status@)),
        ),
{
    assert("run "@ + decimal(s.id as nat) + " is "@ + s.status@ =~= run_text(s.id, " is "@ + s.status@));
}

/// A completed latest run created more than two minutes before the wait
/// began is a prior run: it is not latched, and the poll stays pending
/// waiting for a newer run. A completed run created later, or whose
/// timestamp does not read, is latched and viewed at once.
pub proof fn lemma_completed_run_staleness(
    started_at: i64,
    s: RunSummary,
    view: Result<RunView, GhError>,
    log: Result<String, GhError>,
)
    requires
        s.status@ == "completed"@,
    ensures
        (timestamp_seconds(vstd::utf8::encode_utf8(s.created_at@)) matches Some(created) && created
            < started_at - 120) ==> poll_spec(None, started_at, Ok(s), view, log) == (
            None::<u64>,
            Observation::Pending(
                Some(
                    "latest run "@ + decimal(s.id as nat) + " predates this wait; awaiting a newer run"@,
                ),
            ),
        ),
        !(timestamp_seconds(vstd::utf8::encode_utf8(s.created_at@)) matches Some(created) && created
            < started_at - 120) ==> poll_spec(None, started_at, Ok(s), view, log) == poll_spec(
            Some(s.id),
            started_at,
            Ok(s),
            view,
            log,
        ),
{
}

/// With no run latched, an error asking for the latest run leaves the poll
/// pending with the error's message and nothing latched.
pub proof fn lemma_latest_error_is_pending(
    started_at: i64,
    e: GhError,
    view: Result<RunView, GhError>,
    log: Result<String, GhError>,
)
    ensures
        poll_spec(None, started_at, Err(e), view, log) == (
            None::<u64>,
            Observation::Pending(Some(gh_error_message(e))),
        ),
{
}

fn opt_str(o: &Option<String>) -> (res: Option<&str>)
    ensures
        crate::probes::gh::opt_text(res) == opt_string(*o),
        match res {
            Some(s) => o matches Some(t) && s@ == t@,
            None => o is None,
        },
{
    match o {
        Some(s) => Some(s.as_str()),
        None => None,
    }
}

/// "run <id>" followed by `rest`.
fn run_text_exec(id: u64, rest: &str) -> (res: Vec<char>)
    ensures
        res@ == run_text(id, rest@),
{
    let mut out: Vec<char> = Vec::new();
    push_all(&mut out, "run ");
    push_decimal(&mut out, id);
    push_all(&mut out, rest);
    out
}

fn key(k: &str) -> (res: String)
    ensures
        res@ == k@,
{
    String::from_str(k)
}

/// The digest lines of the failed steps of a run.
fn digest_step_lines(view: &RunView) -> (res: Vec<Vec<char>>)
    ensures
        line_views(res@) == step_lines(step_pairs(view.failed_steps@)),
{
    let mut out: Vec<Vec<char>> = Vec::new();
    let n = view.failed_steps.len();
    for i in 0..n
        invariant
            n == view.failed_steps@.len(),
            line_views(out@) == step_lines(step_pairs(view.failed_steps@)).take(i as int),
    {
        let mut line: Vec<char> = Vec::new();
        push_all(&mut line, "job: ");
        push_string(&mut line, &view.failed_steps[i].0);
        push_all(&mut line, ", step: ");
        push_string(&mut line, &view.failed_steps[i].1);
        let ghost before = line_views(out@);
        out.push(line);
        assert(step_pairs(view.failed_steps@)[i as int] == (
            view.failed_steps@[i as int].0@,
            view.failed_steps@[i as int].1@,
        ));
        assert(line_views(out@) =~= before.push(line@));
        assert(line_views(out@) =~= step_lines(step_pairs(view.failed_steps@)).take(i + 1));
    }
    assert(step_lines(step_pairs(view.failed_steps@)).take(n as int) =~= step_lines(
        step_pairs(view.failed_steps@),
    ));
    out
}

/// The failure digest of a run, given what the failed log request answered,
/// and whether the log was clipped to its last [`DIGEST_LINE_LIMIT`] lines.
pub fn digest_from(view: &RunView, log: Result<String, GhError>) -> (res: (String, bool))
    ensures
        (res.0@, res.1) == digest_spec(step_pairs(view.failed_steps@), log),
{
    let mut all = digest_step_lines(view);
    let mut truncated = false;
    let ghost steps = line_views(all@);
    match &log {
        Ok(text) => {
            let chars = chars_of(text.as_str());
            let log_lines = lines(&chars);
            let count = log_lines.len();
            if count > DIGEST_LINE_LIMIT {
                truncated = true;
            }
            let start = if count > DIGEST_LINE_LIMIT {
                count - DIGEST_LINE_LIMIT
            } else {
                0
            };
            for i in start..count
                invariant
                    count == log_lines@.len(),
                    line_views(log_lines@) == lines_of(text@),
                    start <= count,
                    line_views(all@) == steps + line_views(log_lines@).subrange(start as int, i as int),
            {
                let ghost before = line_views(all@);
                let mut copy: Vec<char> = Vec::new();
                crate::text::push_seq(&mut copy, log_lines[i].as_slice());
                all.push(copy);
                assert(copy@ == line_views(log_lines@)[i as int]);
                assert(line_views(all@) =~= before.push(copy@));
                assert(line_views(all@) =~= steps + line_views(log_lines@).subrange(start as int, i + 1));
            }
            assert(line_views(log_lines@).subrange(start as int, count as int) =~= log_tail(text@));
        },
        Err(e) => {
            let mut line: Vec<char> = Vec::new();
            push_all(&mut line, "(failed log unavailable: ");
            let msg = e.message();
            push_string(&mut line, &msg);
            push_all(&mut line, ")");
            let ghost before = line_views(all@);
            all.push(line);
            assert(line_views(all@) =~= before.push(
                "(failed log unavailable: "@ + gh_error_message(*e) + ")"@,
            ));
        },
    }
    let digest = join(&all);
    (string_of(&digest), truncated)
}

/// Whether a view of a run calls for its failed log.
pub fn concluded_red(view: &Result<RunView, GhError>) -> (res: bool)
    ensures
        res == needs_log(*view),
{
    proof {
        reveal_strlit("unknown");
        reveal_strlit("success");
    }
    match view {
        Ok(v) => str_is(v.status.as_str(), "completed") && match &v.conclusion {
            Some(c) => !str_is(c.as_str(), "success"),
            None => true,
        },
        Err(_) => false,
    }
}

/// What a view of run `id` says about the wait, given what the request for
/// its failed log answered; the log counts only when the view calls for it.
pub fn view_result(id: u64, view: Result<RunView, GhError>, log: Result<String, GhError>) -> (res: ProbeResult)
    ensures
        res@ == view_outcome(id, view, log),
{
    let v = match view {
        Err(e) => {
            let msg = e.message();
            let r = ProbeResult::Pending { note: Some(msg) };
            assert(r@ == view_outcome(id, view, log));
            return r;
        },
        Ok(v) => v,
    };
    if !str_is(v.status.as_str(), "completed") {
        let mut note = run_text_exec(id, " is ");
        push_string(&mut note, &v.status);
        assert(note@ =~= run_text(id, " is "@ + v.status@));
        let r = crate::probe::pending(note);
        assert(r@ == view_outcome(id, view, log));
        return r;
    }
    let conclusion: String = match &v.conclusion {
        Some(c) => c.clone(),
        None => String::from_str("unknown"),
    };
    if str_is(conclusion.as_str(), "success") {
        let summary = run_text_exec(id, " concluded success");
        let mut members: Vec<(String, Json)> = Vec::new();
        members.push((key("run_id"), Json::UInt(id)));
        members.push((key("conclusion"), Json::Str(String::from_str("success"))));
        members.push((key("url"), Json::Str(v.url.clone())));
        proof {
            crate::json::lemma_members_view(members@);
            assert(members_view(members@) =~= seq![
                ("run_id"@, JsonValue::Int(id as int)),
                ("conclusion"@, JsonValue::Str("success"@)),
                ("url"@, JsonValue::Str(v.url@)),
            ]);
        }
        let r = ProbeResult::Met(Report { summary: string_of(&summary), detail: Json::Object(members) });
        assert(r@ == view_outcome(id, view, log));
        return r;
    }
    let ghost log_g = log;
    let (digest, truncated) = digest_from(&v, log);
    let mut summary = run_text_exec(id, " concluded ");
    push_string(&mut summary, &conclusion);
    let ghost conclusion_g = conclusion@;
    let ghost digest_g = digest@;
    let mut members: Vec<(String, Json)> = Vec::new();
    members.push((key("run_id"), Json::UInt(id)));
    members.push((key("conclusion"), Json::Str(conclusion)));
    members.push((key("url"), Json::Str(v.url.clone())));
    members.push((key("digest"), Json::Str(digest)));
    members.push((key("truncated"), Json::Bool(truncated)));
    proof {
        crate::json::lemma_members_view(members@);
        assert(members_view(members@) =~= seq![
            ("run_id"@, JsonValue::Int(id as int)),
            ("conclusion"@, JsonValue::Str(conclusion_g)),
            ("url"@, JsonValue::Str(v.url@)),
            ("digest"@, JsonValue::Str(digest_g)),
            ("truncated"@, JsonValue::Bool(truncated)),
        ]);
    }
    assert(summary@ =~= run_text(id, " concluded "@ + conclusion_g));
    let r = ProbeResult::Failed(Report { summary: string_of(&summary), detail: Json::Object(members) });
    assert(r@ == view_outcome(id, view, log_g));
    r
}

impl<G: GhClient> RunProbe<G> {
    /// The failure digest of run `run_id`: one line per failed step, then
    /// the last lines of its failed log as the client gives it, and whether
    /// the log was clipped.
    pub fn build_digest(&self, run_id: u64, view: &RunView) -> (res: (String, bool))
        ensures
            exists|log: Result<String, GhError>|
                self.gh.log_answer(run_id, opt_string(self.repo), log) && (res.0@, res.1) == digest_spec(
                    step_pairs(view.failed_steps@),
                    log,
                ),
    {
        let log = self.gh.failed_log(run_id, opt_str(&self.repo));
        let ghost log_g = log;
        let res = digest_from(view, log);
        assert((res.0@, res.1) == digest_spec(step_pairs(view.failed_steps@), log_g));
        res
    }

    /// True when a *completed* run created at `created_at` predates this
    /// wait (allowing for [`STALE_GRACE`]), i.e. it finished before we
    /// started waiting and is therefore a prior run, not the one we want.
    /// An unparseable timestamp is treated as not-stale so a format change
    /// can never make the wait hang.
    pub fn is_stale_completed(&self, created_at: &str) -> (res: bool)
        ensures
            res == stale_spec(created_at@, self.started_at),
    {
        match parse_rfc3339_to_epoch(created_at) {
            None => false,
            Some(created) => (created as i128) < (self.started_at as i128) - (STALE_GRACE as i128),
        }
    }

    /// Condition name as it appears in the verdict.
    pub fn name(&self) -> (res: &'static str)
        ensures
            res@ == "run"@,
    {
        "run"
    }

    /// Polls the run once. The run the probe is latched on afterwards and
    /// the result are those [`poll_spec`] gives for the answers the client
    /// gave to the requests of this poll (see [`poll_answers`]); see
    /// [`poll_spec`] for the decisions.
    pub fn poll(&mut self) -> (res: ProbeResult)
        ensures
            final(self).repo == old(self).repo,
            final(self).branch == old(self).branch,
            final(self).workflow == old(self).workflow,
            final(self).started_at == old(self).started_at,
            final(self).gh == old(self).gh,
            old(self).run_id is Some ==> final(self).run_id == old(self).run_id,
            exists|
                latest: Result<RunSummary, GhError>,
                view: Result<RunView, GhError>,
                log: Result<String, GhError>,
            |
                poll_answers(*old(self), latest, view, log) && poll_spec(
                    old(self).run_id,
                    old(self).started_at,
                    latest,
                    view,
                    log,
                ) == (final(self).run_id, res@),
    {
        let ghost any_latest: Result<RunSummary, GhError> = Err(GhError::NotInstalled);
        let ghost any_view: Result<RunView, GhError> = Err(GhError::NotInstalled);
        let ghost mut latest_g: Result<RunSummary, GhError> = any_latest;
        let run_id = match self.run_id {
            Some(id) => id,
            None => {
                let latest = self.gh.latest_run(
                    opt_str(&self.repo),
                    opt_str(&self.branch),
                    opt_str(&self.workflow),
                );
                proof {
                    latest_g = latest;
                }
                let summary = match latest {
                    Ok(s) => s,
                    Err(e) => {
                        let r = ProbeResult::Pending { note: Some(e.message()) };
                        assert(poll_answers(*old(self), latest_g, any_view, Err(GhError::NotInstalled)));
                        assert(poll_spec(None, self.started_at, latest_g, any_view, Err(GhError::NotInstalled)) == (
                            self.run_id,
                            r@,
                        ));
                        return r;
                    },
                };
                let completed = str_is(summary.status.as_str(), "completed");
                if completed && self.is_stale_completed(summary.created_at.as_str()) {
                    let mut note: Vec<char> = Vec::new();
                    push_all(&mut note, "latest run ");
                    push_decimal(&mut note, summary.id);
                    push_all(&mut note, " predates this wait; awaiting a newer run");
                    let r = crate::probe::pending(note);
                    assert(poll_answers(*old(self), latest_g, any_view, Err(GhError::NotInstalled)));
                    assert(poll_spec(None, self.started_at, latest_g, any_view, Err(GhError::NotInstalled)) == (
                        self.run_id,
                        r@,
                    ));
                    return r;
                }
                self.run_id = Some(summary.id);
                if !completed {
                    let mut note = run_text_exec(summary.id, " is ");
                    push_string(&mut note, &summary.status);
                    assert(note@ =~= run_text(summary.id, " is "@ + summary.status@));
                    let r = crate::probe::pending(note);
                    assert(poll_answers(*old(self), latest_g, any_view, Err(GhError::NotInstalled)));
                    assert(poll_spec(None, self.started_at, latest_g, any_view, Err(GhError::NotInstalled)) == (
                        self.run_id,
                        r@,
                    ));
                    return r;
                }
                summary.id
            },
        };
        let view = self.gh.view_run(run_id, opt_str(&self.repo));
        let ghost view_g = view;
        let log = if concluded_red(&view) {
            self.gh.failed_log(run_id, opt_str(&self.repo))
        } else {
            Err(GhError::NotInstalled)
        };
        let ghost log_g = log;
        let r = view_result(run_id, view, log);
        assert(poll_answers(*old(self), latest_g, view_g, log_g));
        assert(poll_spec(old(self).run_id, self.started_at, latest_g, view_g, log_g) == (self.run_id, r@));
        r
    }
}

} // verus!
