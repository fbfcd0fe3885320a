use tarry::json::Json;
use tarry::probes::gh::{
    branch_from_git, failed_log_args, gh_output, latest_run_args, parse_latest_run,
    parse_rfc3339_to_epoch, parse_run_view, view_run_args, with_repo, GhError, GhRun,
};

fn s(text: &str) -> Json {
    Json::Str(text.to_string())
}

fn obj(members: Vec<(&str, Json)>) -> Json {
    Json::Object(members.into_iter().map(|(k, v)| (k.to_string(), v)).collect())
}

#[test]
fn parse_run_view_extracts_failed_job_and_step() {
    let v = obj(vec![
        ("status", s("completed")),
        ("conclusion", s("failure")),
        ("url", s("https://github.com/rvben/x/actions/runs/123")),
        (
            "jobs",
            Json::Array(vec![
                obj(vec![
                    ("name", s("build")),
                    ("conclusion", s("failure")),
                    (
                        "steps",
                        Json::Array(vec![
                            obj(vec![("name", s("Checkout")), ("conclusion", s("success"))]),
                            obj(vec![("name", s("Run tests")), ("conclusion", s("failure"))]),
                        ]),
                    ),
                ]),
                obj(vec![("name", s("lint")), ("conclusion", s("success")), ("steps", Json::Array(vec![]))]),
            ]),
        ),
    ]);
    let view = parse_run_view(&v);
    assert_eq!(view.status, "completed");
    assert_eq!(view.conclusion.as_deref(), Some("failure"));
    assert_eq!(view.failed_steps, vec![("build".to_string(), "Run tests".to_string())]);
}

#[test]
fn parse_run_view_empty_conclusion_is_none() {
    let v = obj(vec![
        ("status", s("in_progress")),
        ("conclusion", s("")),
        ("url", s("u")),
        ("jobs", Json::Array(vec![])),
    ]);
    let view = parse_run_view(&v);
    assert!(view.conclusion.is_none());
}

#[test]
fn parse_run_view_defaults_missing_names() {
    let v = obj(vec![(
        "jobs",
        Json::Array(vec![obj(vec![("conclusion", s("failure"))])]),
    )]);
    let view = parse_run_view(&v);
    assert_eq!(view.status, "");
    assert_eq!(view.url, "");
    assert_eq!(view.failed_steps, vec![("?".to_string(), "?".to_string())]);
}

#[test]
fn parse_rfc3339_known_epochs() {
    assert_eq!(parse_rfc3339_to_epoch("1970-01-01T00:00:00Z"), Some(0));
    assert_eq!(parse_rfc3339_to_epoch("2024-01-01T00:00:00Z"), Some(1_704_067_200));
    // Time-of-day and a space separator both parse; fractional seconds ignored.
    assert_eq!(parse_rfc3339_to_epoch("2024-01-01T01:02:03Z"), Some(1_704_067_200 + 3723));
    assert_eq!(
        parse_rfc3339_to_epoch("2026-06-23 12:34:56Z"),
        parse_rfc3339_to_epoch("2026-06-23T12:34:56.999Z")
    );
    // Ordering is preserved, which is what the staleness check relies on.
    assert!(
        parse_rfc3339_to_epoch("2026-06-23T11:00:00Z") < parse_rfc3339_to_epoch("2026-06-23T12:00:00Z")
    );
}

#[test]
fn parse_rfc3339_rejects_malformed() {
    assert_eq!(parse_rfc3339_to_epoch(""), None);
    assert_eq!(parse_rfc3339_to_epoch("not-a-date"), None);
    assert_eq!(parse_rfc3339_to_epoch("2026/06/23T12:00:00Z"), None);
    assert_eq!(parse_rfc3339_to_epoch("2026-13-01T00:00:00Z"), None);
}

#[test]
fn parse_rfc3339_leap_years_and_digits_only() {
    // 2024 is a leap year: March 1st comes 60 days after January 1st.
    let jan = parse_rfc3339_to_epoch("2024-01-01T00:00:00Z").unwrap();
    let mar = parse_rfc3339_to_epoch("2024-03-01T00:00:00Z").unwrap();
    assert_eq!(mar - jan, 60 * 86400);
    // 2100 is not.
    let jan = parse_rfc3339_to_epoch("2100-01-01T00:00:00Z").unwrap();
    let mar = parse_rfc3339_to_epoch("2100-03-01T00:00:00Z").unwrap();
    assert_eq!(mar - jan, 59 * 86400);
    assert_eq!(parse_rfc3339_to_epoch("1969-12-31T23:59:59Z"), Some(-1));
    // Every field is digits only: a sign is a malformed prefix.
    assert_eq!(parse_rfc3339_to_epoch("2024-+1-01T00:00:00Z"), None);
    assert_eq!(parse_rfc3339_to_epoch("2026-06-23T-1:00:00Z"), None);
    assert_eq!(parse_rfc3339_to_epoch("-024-01-01T00:00:00Z"), None);
    assert_eq!(parse_rfc3339_to_epoch("2024-01-01Tab:00:00Z"), None);
    assert_eq!(parse_rfc3339_to_epoch("2024-01-32T00:00:00Z"), None);
    assert_eq!(parse_rfc3339_to_epoch("2024-01-01T24:00:00Z"), None);
    assert_eq!(parse_rfc3339_to_epoch("2024-01-01T00:00:00"), Some(1_704_067_200));
    assert_eq!(parse_rfc3339_to_epoch("2024-01-01T00:00:0"), None);
}

#[test]
fn gh_arguments() {
    assert_eq!(
        latest_run_args(Some("o/r"), Some("main"), Some("Release")),
        vec![
            "run", "list", "--limit", "1", "--json", "databaseId,status,createdAt", "--branch", "main",
            "--workflow", "Release", "-R", "o/r"
        ]
    );
    assert_eq!(
        latest_run_args(None, None, None),
        vec!["run", "list", "--limit", "1", "--json", "databaseId,status,createdAt"]
    );
    assert_eq!(
        view_run_args(123, None),
        vec!["run", "view", "123", "--json", "status,conclusion,url,jobs"]
    );
    assert_eq!(
        failed_log_args(42, Some("a/b")),
        vec!["run", "view", "42", "--log-failed", "-R", "a/b"]
    );
    assert_eq!(with_repo(vec!["x".to_string()], None), vec!["x"]);
}

#[test]
fn gh_output_interprets_runs() {
    assert!(matches!(gh_output(GhRun::NotFound), Err(GhError::NotInstalled)));
    match gh_output(GhRun::Exited { success: false, stdout: vec![], stderr: b"  boom \n".to_vec() }) {
        Err(GhError::Failed(m)) => assert_eq!(m, "boom"),
        _ => panic!("expected a failure"),
    }
    match gh_output(GhRun::Exited { success: true, stdout: b"[1]".to_vec(), stderr: vec![] }) {
        Ok(out) => assert_eq!(out, "[1]"),
        _ => panic!("expected output"),
    }
    assert_eq!(GhError::NotInstalled.message(), "gh is not installed or not on PATH");
    assert_eq!(GhError::Failed("x".into()).message(), "gh: x");
}

#[test]
fn latest_run_is_the_first_listed() {
    let runs = Json::Array(vec![obj(vec![
        ("databaseId", Json::UInt(77)),
        ("status", s("queued")),
        ("createdAt", s("2026-06-23T12:00:00Z")),
    ])]);
    let summary = parse_latest_run(Ok(runs)).ok().unwrap();
    assert_eq!(summary.id, 77);
    assert_eq!(summary.status, "queued");
    assert_eq!(summary.created_at, "2026-06-23T12:00:00Z");
    match parse_latest_run(Ok(Json::Array(vec![]))) {
        Err(GhError::Failed(m)) => assert_eq!(m, "no runs found"),
        _ => panic!("expected no runs"),
    }
    match parse_latest_run(Ok(Json::Array(vec![obj(vec![("databaseId", Json::Int(-1))])]))) {
        Err(GhError::Failed(m)) => assert_eq!(m, "run has no databaseId"),
        _ => panic!("expected a missing id"),
    }
    match parse_latest_run(Err("bad json".into())) {
        Err(GhError::Failed(m)) => assert_eq!(m, "bad json"),
        _ => panic!("expected the parse error"),
    }
}

#[test]
fn current_git_branch_returns_branch_on_a_branch() {
    assert_eq!(branch_from_git(true, b"feature-x\n").as_deref(), Some("feature-x"));
}

#[test]
fn current_git_branch_is_none_when_detached() {
    assert_eq!(branch_from_git(true, b"HEAD\n"), None);
    assert_eq!(branch_from_git(true, b"  \n"), None);
    assert_eq!(branch_from_git(false, b"main\n"), None);
}
