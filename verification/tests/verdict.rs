use serde_json::Value;

use tarry::engine::EngineOutcome;
use tarry::json::Json;
use tarry::probe::Report;
use tarry::verdict::{Verdict, VerdictKind};

fn secs(s: u64) -> u64 {
    s * 1_000_000_000
}

fn met_verdict() -> Verdict {
    Verdict::from_outcome(
        "http",
        EngineOutcome::Met {
            report: Report {
                summary: "200 OK".into(),
                detail: Json::Object(vec![("status".into(), Json::UInt(200))]),
            },
            waited: secs(252),
            polls: 26,
        },
    )
}

#[test]
fn met_maps_to_exit_0_and_ok_true() {
    let v = met_verdict();
    assert_eq!(v.exit_code(), 0);
    let parsed: Value = serde_json::from_str(&v.render_json()).unwrap();
    assert_eq!(parsed["condition"], "http");
    assert_eq!(parsed["ok"], true);
    assert_eq!(parsed["kind"], "met");
    assert_eq!(parsed["waited_s"], 252);
    assert_eq!(parsed["polls"], 26);
    assert_eq!(parsed["detail"]["status"], 200);
}

#[test]
fn timeout_maps_to_exit_1_with_note_in_detail() {
    let v = Verdict::from_outcome(
        "tcp",
        EngineOutcome::Timeout {
            last_note: Some("connection refused".into()),
            waited: secs(600),
            polls: 40,
        },
    );
    assert_eq!(v.exit_code(), 1);
    let parsed: Value = serde_json::from_str(&v.render_json()).unwrap();
    assert_eq!(parsed["ok"], false);
    assert_eq!(parsed["kind"], "timeout");
    assert_eq!(parsed["detail"]["last_note"], "connection refused");
}

#[test]
fn failed_maps_to_exit_2() {
    let v = Verdict::from_outcome(
        "run",
        EngineOutcome::Failed {
            report: Report {
                summary: "run 123 concluded failure".into(),
                detail: Json::Object(vec![("conclusion".into(), Json::Str("failure".into()))]),
            },
            waited: secs(60),
            polls: 7,
        },
    );
    assert_eq!(v.exit_code(), 2);
    let parsed: Value = serde_json::from_str(&v.render_json()).unwrap();
    assert_eq!(parsed["kind"], "condition_failed");
}

#[test]
fn text_rendering_is_one_line_for_met() {
    let v = met_verdict();
    let text = v.render_text();
    assert_eq!(text.lines().count(), 1);
    assert!(text.contains("200 OK"));
    assert!(text.contains("26 polls"));
}

#[test]
fn text_rendering_appends_digest_lines_when_present() {
    let v = Verdict::from_outcome(
        "run",
        EngineOutcome::Failed {
            report: Report {
                summary: "run 123 concluded failure".into(),
                detail: Json::Object(vec![(
                    "digest".into(),
                    Json::Str("job: build, step: test\nline one\nline two".into()),
                )]),
            },
            waited: secs(60),
            polls: 7,
        },
    );
    let text = v.render_text();
    assert!(text.lines().count() > 1);
    assert!(text.contains("line two"));
}

#[test]
fn rendering_exact_text_and_json() {
    let v = met_verdict();
    assert_eq!(v.render_text(), "ok: 200 OK (waited 4m 12s, 26 polls)");
    assert_eq!(
        v.render_json(),
        "{\"condition\":\"http\",\"ok\":true,\"kind\":\"met\",\"waited_s\":252,\"polls\":26,\"detail\":{\"status\":200}}"
    );
    let t = Verdict::from_outcome("file", EngineOutcome::Timeout { last_note: None, waited: 1_500_000_000, polls: 2 });
    assert_eq!(t.summary, "timed out");
    assert_eq!(t.render_text(), "timeout: timed out (waited 1s, 2 polls)");
    assert_eq!(
        t.render_json(),
        "{\"condition\":\"file\",\"ok\":false,\"kind\":\"timeout\",\"waited_s\":1,\"polls\":2,\"detail\":{\"last_note\":null}}"
    );
    let n = Verdict::from_outcome("tcp", EngineOutcome::Timeout { last_note: Some("x \"y\"".into()), waited: 0, polls: 1 });
    assert_eq!(n.summary, "timed out (last: x \"y\")");
    assert!(n.render_json().contains("\"last_note\":\"x \\\"y\\\"\""));
    assert_eq!(VerdictKind::ConditionFailed.as_str(), "condition_failed");
    assert_eq!(VerdictKind::Met.as_str(), "met");
    assert_eq!(VerdictKind::Timeout.as_str(), "timeout");
}

#[test]
fn strings_are_escaped_as_serde_json_escapes_them() {
    let text = "q\"b\\s\u{8}\t\n\u{c}\r\u{1}\u{1f}é/";
    let expected = "\"q\\\"b\\\\s\\b\\t\\n\\f\\r\\u0001\\u001fé/\"";
    assert_eq!(Json::Str(text.into()).to_text(), expected);
    assert_eq!(serde_json::to_string(text).unwrap(), expected);
}

#[test]
fn waited_time_reads_as_humantime_writes_it() {
    let long = 31_557_600 + 2 * 2_630_016 + 3 * 86_400 + 4 * 3_600 + 5;
    let v = Verdict::from_outcome("file", EngineOutcome::Timeout { last_note: None, waited: secs(long), polls: 9 });
    assert_eq!(v.render_text(), "timeout: timed out (waited 1year 2months 3days 4h 5s, 9 polls)");
    let v = Verdict::from_outcome("file", EngineOutcome::Timeout { last_note: None, waited: secs(86_400 + 60), polls: 2 });
    assert_eq!(v.render_text(), "timeout: timed out (waited 1day 1m, 2 polls)");
    let v = Verdict::from_outcome("file", EngineOutcome::Timeout { last_note: None, waited: 999_999_999, polls: 1 });
    assert_eq!(v.render_text(), "timeout: timed out (waited 0s, 1 polls)");
}
