use serde_json::Value;

use tarry::engine::EngineOutcome;
use tarry::json::Json;
use tarry::probe::Report;
use tarry::schema::{document, VERSION};
use tarry::verdict::{Verdict, VerdictKind};

fn doc() -> Value {
    serde_json::from_str(&document().to_text()).unwrap()
}

#[test]
fn schema_is_valid_clispec_v02_json() {
    let doc = doc();
    assert_eq!(doc["clispec"], "0.2");
    assert_eq!(doc["name"], "tarry");
    let commands: Vec<&str> = doc["commands"]
        .as_array()
        .unwrap()
        .iter()
        .map(|c| c["name"].as_str().unwrap())
        .collect();
    for expected in ["gh run", "http", "tcp", "file", "cmd", "schema"] {
        assert!(commands.contains(&expected), "missing command {expected}");
    }
    // cmd executes arbitrary user commands; everything else is read-only.
    for c in doc["commands"].as_array().unwrap() {
        let expected_mutating = c["name"] == "cmd";
        assert_eq!(c["mutating"], expected_mutating, "command {}", c["name"]);
    }
    // Outcomes: timeout (1, retryable) and condition_failed (2, not retryable).
    let outcomes = doc["outcomes"].as_array().unwrap();
    assert!(
        outcomes
            .iter()
            .any(|o| o["kind"] == "timeout" && o["exit_code"] == 1 && o["retryable"] == true)
    );
    assert!(outcomes.iter().any(|o| o["kind"] == "condition_failed"
        && o["exit_code"] == 2
        && o["retryable"] == false));
    let errors = doc["errors"].as_array().unwrap();
    assert!(
        errors
            .iter()
            .any(|e| e["kind"] == "usage" && e["exit_code"] == 3)
    );
    assert!(
        errors
            .iter()
            .any(|e| e["kind"] == "environment" && e["exit_code"] == 4)
    );
}

#[test]
fn schema_reports_the_package_version_and_order() {
    let doc = doc();
    assert_eq!(doc["version"], VERSION);
    assert_eq!(VERSION, "0.1.3");
    let keys: Vec<&String> = doc.as_object().unwrap().keys().collect();
    assert_eq!(
        keys,
        ["clispec", "name", "version", "description", "global_args", "commands", "outcomes", "errors"]
    );
    let names: Vec<&str> = doc["commands"]
        .as_array()
        .unwrap()
        .iter()
        .map(|c| c["name"].as_str().unwrap())
        .collect();
    assert_eq!(names, ["gh run", "http", "tcp", "file", "cmd", "schema"]);
    assert_eq!(doc["global_args"][2]["enum"][1], "text");
    assert_eq!(doc["commands"][1]["args"][2]["repeatable"], true);
    assert_eq!(doc["commands"][5]["output_fields"].as_array().unwrap().len(), 0);
}

#[test]
fn output_fields_name_the_members_of_a_verdict() {
    let verdict = Verdict::from_outcome(
        "tcp",
        EngineOutcome::Met {
            report: Report { summary: "connected".into(), detail: Json::Object(vec![]) },
            waited: 3000,
            polls: 2,
        },
    );
    assert_eq!(verdict.kind, VerdictKind::Met);
    let rendered: Value = serde_json::from_str(&verdict.render_json()).unwrap();
    let keys: Vec<String> = rendered.as_object().unwrap().keys().cloned().collect();
    let doc = doc();
    for c in doc["commands"].as_array().unwrap() {
        if c["name"] == "schema" {
            continue;
        }
        let names: Vec<String> = c["output_fields"]
            .as_array()
            .unwrap()
            .iter()
            .map(|f| f["name"].as_str().unwrap().to_string())
            .collect();
        assert_eq!(names, keys, "command {}", c["name"]);
    }
}

#[test]
fn outcomes_carry_the_exit_codes_of_verdicts() {
    let doc = doc();
    for (kind, outcome) in [(VerdictKind::Timeout, 0), (VerdictKind::ConditionFailed, 1)] {
        let verdict = Verdict::from_outcome(
            "file",
            match kind {
                VerdictKind::Timeout => EngineOutcome::Timeout { last_note: None, waited: 1000, polls: 1 },
                _ => EngineOutcome::Failed {
                    report: Report { summary: "red".into(), detail: Json::Null },
                    waited: 1000,
                    polls: 1,
                },
            },
        );
        let o = &doc["outcomes"][outcome];
        assert_eq!(o["kind"], kind.as_str());
        assert_eq!(o["exit_code"], verdict.exit_code());
    }
}
