use std::cell::RefCell;
use std::collections::VecDeque;

use tarry::json::Json;
use tarry::probe::{ProbeResult, Report};
use tarry::probes::gh::{parse_rfc3339_to_epoch, GhClient, GhError, RunSummary, RunView, Text};
use tarry::probes::run::{concluded_red, digest_from, view_result, RunProbe};

struct FakeGh {
    summaries: RefCell<VecDeque<Result<RunSummary, &'static str>>>,
    views: RefCell<VecDeque<RunView>>,
    log: String,
}

impl FakeGh {
    fn with_views(views: VecDeque<RunView>) -> Self {
        FakeGh { summaries: RefCell::new(VecDeque::new()), views: RefCell::new(views), log: String::new() }
    }
}

impl GhClient for FakeGh {
    // The double answers whatever its script holds next: any result may
    // answer any request.
    fn latest_answer(
        &self,
        _repo: Option<Text>,
        _branch: Option<Text>,
        _workflow: Option<Text>,
        _r: Result<RunSummary, GhError>,
    ) -> bool {
        true
    }

    fn view_answer(&self, _id: u64, _repo: Option<Text>, _r: Result<RunView, GhError>) -> bool {
        true
    }

    fn log_answer(&self, _id: u64, _repo: Option<Text>, _r: Result<String, GhError>) -> bool {
        true
    }

    fn latest_run(
        &self,
        _repo: Option<&str>,
        _branch: Option<&str>,
        _workflow: Option<&str>,
    ) -> Result<RunSummary, GhError> {
        self.summaries
            .borrow_mut()
            .pop_front()
            .unwrap_or(Err("no scripted summary"))
            .map_err(|e| GhError::Failed(e.into()))
    }
    fn view_run(&self, _id: u64, _repo: Option<&str>) -> Result<RunView, GhError> {
        self.views.borrow_mut().pop_front().ok_or_else(|| GhError::Failed("no scripted view".into()))
    }
    fn failed_log(&self, _id: u64, _repo: Option<&str>) -> Result<String, GhError> {
        Ok(self.log.clone())
    }
}

fn view(status: &str, conclusion: Option<&str>) -> RunView {
    RunView {
        status: status.into(),
        conclusion: conclusion.map(String::from),
        url: "https://github.com/rvben/x/actions/runs/123".into(),
        failed_steps: if conclusion == Some("failure") {
            vec![("build".into(), "Run tests".into())]
        } else {
            vec![]
        },
    }
}

fn summary(id: u64, status: &str, created_at: &str) -> RunSummary {
    RunSummary { id, status: status.into(), created_at: created_at.into() }
}

/// Fixed wait-start instant so `created_at` comparisons are deterministic.
fn started() -> i64 {
    parse_rfc3339_to_epoch("2026-06-23T12:00:00Z").unwrap()
}

fn probe(gh: FakeGh, run_id: Option<u64>) -> RunProbe<FakeGh> {
    RunProbe { gh, repo: None, branch: None, workflow: None, run_id, started_at: started() }
}

fn member<'a>(detail: &'a Json, key: &str) -> &'a Json {
    detail.get(key).expect("member present")
}

#[test]
fn resolves_latest_run_on_first_poll() {
    // A completed run created at the wait start is current, not stale.
    let gh = FakeGh::with_views(VecDeque::from([view("completed", Some("success"))]));
    *gh.summaries.borrow_mut() = VecDeque::from([Ok(summary(123, "completed", "2026-06-23T12:00:00Z"))]);
    let mut p = probe(gh, None);
    assert!(matches!(p.poll(), ProbeResult::Met(_)));
    assert_eq!(p.run_id, Some(123));
}

#[test]
fn stale_completed_run_is_skipped_then_new_run_resolves() {
    let gh = FakeGh {
        summaries: RefCell::new(VecDeque::from([
            Ok(summary(100, "completed", "2026-06-23T11:00:00Z")),
            Ok(summary(999, "in_progress", "2026-06-23T12:00:30Z")),
        ])),
        views: RefCell::new(VecDeque::new()),
        log: String::new(),
    };
    let mut p = probe(gh, None);
    match p.poll() {
        ProbeResult::Pending { note } => assert!(note.unwrap().contains("predates this wait")),
        _ => panic!("expected Pending on the stale run"),
    }
    assert_eq!(p.run_id, None, "must not latch onto the stale run");
    assert!(matches!(p.poll(), ProbeResult::Pending { .. }));
    assert_eq!(p.run_id, Some(999));
}

#[test]
fn recently_completed_run_is_accepted() {
    let gh = FakeGh {
        summaries: RefCell::new(VecDeque::from([Ok(summary(500, "completed", "2026-06-23T11:59:30Z"))])),
        views: RefCell::new(VecDeque::from([view("completed", Some("success"))])),
        log: String::new(),
    };
    let mut p = probe(gh, None);
    assert!(matches!(p.poll(), ProbeResult::Met(_)));
    assert_eq!(p.run_id, Some(500));
}

#[test]
fn unparseable_created_at_is_not_treated_stale() {
    let gh = FakeGh {
        summaries: RefCell::new(VecDeque::from([Ok(summary(7, "completed", ""))])),
        views: RefCell::new(VecDeque::from([view("completed", Some("success"))])),
        log: String::new(),
    };
    let mut p = probe(gh, None);
    assert!(matches!(p.poll(), ProbeResult::Met(_)));
    assert_eq!(p.run_id, Some(7));
}

#[test]
fn in_progress_is_pending() {
    let gh = FakeGh::with_views(VecDeque::from([view("in_progress", None)]));
    let mut p = probe(gh, Some(123));
    assert!(matches!(p.poll(), ProbeResult::Pending { .. }));
}

#[test]
fn success_reports_conclusion_and_url() {
    let gh = FakeGh::with_views(VecDeque::from([view("completed", Some("success"))]));
    let mut p = probe(gh, Some(123));
    match p.poll() {
        ProbeResult::Met(Report { summary, detail }) => {
            assert!(summary.contains("success"));
            assert!(matches!(member(&detail, "run_id"), Json::UInt(123)));
            assert!(matches!(member(&detail, "conclusion"), Json::Str(c) if c == "success"));
        }
        _ => panic!("expected Met"),
    }
}

#[test]
fn failure_is_terminal_with_bounded_digest() {
    let log: String = (1..=30).map(|i| format!("line {i}\n")).collect();
    let mut gh = FakeGh::with_views(VecDeque::from([view("completed", Some("failure"))]));
    gh.log = log;
    let mut p = probe(gh, Some(123));
    match p.poll() {
        ProbeResult::Failed(Report { detail, .. }) => {
            let digest = match member(&detail, "digest") {
                Json::Str(d) => d.clone(),
                _ => panic!("digest is a string"),
            };
            assert!(digest.contains("job: build, step: Run tests"));
            assert!(digest.contains("line 30"));
            assert!(!digest.contains("line 5\n"));
            assert!(matches!(member(&detail, "truncated"), Json::Bool(true)));
        }
        _ => panic!("expected Failed"),
    }
}

#[test]
fn gh_error_is_pending_not_failed() {
    let gh = FakeGh::with_views(VecDeque::new());
    let mut p = probe(gh, Some(123));
    match p.poll() {
        ProbeResult::Pending { note } => assert!(note.unwrap().contains("no scripted view")),
        _ => panic!("expected Pending"),
    }
}

#[test]
fn digest_lines_and_unavailable_log() {
    let v = view("completed", Some("failure"));
    let (digest, truncated) = digest_from(&v, Ok("a\r\nb\n".into()));
    assert_eq!(digest, "job: build, step: Run tests\na\nb");
    assert!(!truncated);
    let (digest, truncated) = digest_from(&v, Err(GhError::NotInstalled));
    assert_eq!(
        digest,
        "job: build, step: Run tests\n(failed log unavailable: gh is not installed or not on PATH)"
    );
    assert!(!truncated);
    let log: String = (1..=21).map(|i| format!("l{i}\n")).collect();
    let (digest, truncated) = digest_from(&v, Ok(log));
    assert!(truncated);
    assert!(!digest.contains("l1\n"));
    assert!(digest.ends_with("l21"));
    assert_eq!(digest.lines().count(), 21);
}

#[test]
fn staleness_uses_the_grace_window() {
    let p = probe(FakeGh::with_views(VecDeque::new()), None);
    assert!(p.is_stale_completed("2026-06-23T11:57:59Z"));
    assert!(!p.is_stale_completed("2026-06-23T11:58:00Z"));
    assert!(!p.is_stale_completed("garbage"));
    let (d, t) = p.build_digest(1, &view("completed", Some("failure")));
    assert_eq!(d, "job: build, step: Run tests");
    assert!(!t);
}

#[test]
fn failure_summary_names_conclusion() {
    let gh = FakeGh::with_views(VecDeque::from([view("completed", Some("cancelled"))]));
    let mut p = probe(gh, Some(9));
    match p.poll() {
        ProbeResult::Failed(Report { summary, .. }) => assert_eq!(summary, "run 9 concluded cancelled"),
        _ => panic!("expected Failed"),
    }
    let gh = FakeGh::with_views(VecDeque::from([view("completed", None)]));
    let mut p = probe(gh, Some(9));
    match p.poll() {
        ProbeResult::Failed(Report { summary, .. }) => assert_eq!(summary, "run 9 concluded unknown"),
        _ => panic!("expected Failed"),
    }
}

#[test]
fn view_result_decides_from_the_answers() {
    assert!(!concluded_red(&Ok(view("in_progress", None))));
    assert!(!concluded_red(&Ok(view("completed", Some("success")))));
    assert!(concluded_red(&Ok(view("completed", Some("failure")))));
    assert!(concluded_red(&Ok(view("completed", None))));
    assert!(!concluded_red(&Err(GhError::NotInstalled)));
    match view_result(7, Ok(view("queued", None)), Err(GhError::NotInstalled)) {
        ProbeResult::Pending { note } => assert_eq!(note.unwrap(), "run 7 is queued"),
        _ => panic!("expected Pending"),
    }
    match view_result(7, Ok(view("completed", Some("failure"))), Ok("a\nb\n".into())) {
        ProbeResult::Failed(r) => {
            assert_eq!(r.summary, "run 7 concluded failure");
            assert_eq!(r.detail.get("digest").unwrap().to_text(), "\"job: build, step: Run tests\\na\\nb\"");
        }
        _ => panic!("expected Failed"),
    }
    match view_result(7, Err(GhError::Failed("boom".into())), Ok(String::new())) {
        ProbeResult::Pending { note } => assert_eq!(note.unwrap(), "gh: boom"),
        _ => panic!("expected Pending"),
    }
}
