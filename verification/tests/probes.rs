use serde_json::Value;

use tarry::json::Json;
use tarry::pattern::Pattern;
use tarry::probe::ProbeResult;
use tarry::probes::cmd::{CmdProbe, CmdRun};
use tarry::probes::file::{FileLook, FileMatcher, FileProbe};
use tarry::probes::http::{lookup, parse_header, parse_json_path, value_matches, HttpProbe, HttpReply};
use tarry::probes::tcp::{attempt_from, Connect, TcpAttempt, TcpProbe};

/// The library's form of a JSON document, as the binary builds it.
fn to_json(v: &Value) -> Json {
    match v {
        Value::Null => Json::Null,
        Value::Bool(b) => Json::Bool(*b),
        Value::Number(n) => match (n.as_u64(), n.as_i64()) {
            (Some(u), _) => Json::UInt(u),
            (None, Some(i)) => Json::Int(i),
            _ => Json::Float(n.to_string()),
        },
        Value::String(s) => Json::Str(s.clone()),
        Value::Array(items) => Json::Array(items.iter().map(to_json).collect()),
        Value::Object(map) => Json::Object(map.iter().map(|(k, v)| (k.clone(), to_json(v))).collect()),
    }
}

fn parse(body: &str) -> Result<Json, String> {
    serde_json::from_str::<Value>(body).map(|v| to_json(&v)).map_err(|e| e.to_string())
}

fn http(url: &str) -> HttpProbe {
    HttpProbe {
        url: url.into(),
        status: None,
        contains: vec![],
        json_paths: vec![],
        headers: vec![],
        request_timeout: 5_000_000_000,
    }
}

fn respond(p: &HttpProbe, status: u16, body: &str) -> ProbeResult {
    p.evaluate(HttpReply::Response { status, body: body.into() }, parse(body))
}

#[test]
fn ok_status_is_met() {
    let p = http("http://x/health");
    assert!(matches!(respond(&p, 200, "ok"), ProbeResult::Met(_)));
}

#[test]
fn non_2xx_is_pending_by_default() {
    let p = http("http://x/health");
    match respond(&p, 503, "") {
        ProbeResult::Pending { note } => assert!(note.unwrap().contains("503")),
        _ => panic!("expected Pending"),
    }
}

#[test]
fn explicit_status_must_match_exactly() {
    let mut p = http("http://x/gone");
    p.status = Some(404);
    assert!(matches!(respond(&p, 404, ""), ProbeResult::Met(_)));
    assert!(matches!(respond(&p, 200, ""), ProbeResult::Pending { .. }));
}

#[test]
fn contains_matcher_checks_body() {
    let mut p = http("http://x/v");
    p.contains = vec!["1.2.3".into()];
    match respond(&p, 200, "version 1.2.2") {
        ProbeResult::Pending { note } => assert_eq!(note.unwrap(), "body does not contain '1.2.3'"),
        _ => panic!("expected Pending"),
    }
    assert!(matches!(respond(&p, 200, "version 1.2.3"), ProbeResult::Met(_)));
}

#[test]
fn json_path_matcher_checks_body() {
    let mut p = http("http://x/status");
    p.json_paths = vec![parse_json_path("jobs.0.state=done").unwrap(), parse_json_path("count=1").unwrap()];
    match respond(&p, 200, r#"{"jobs": [{"state": "done"}], "count": 1}"#) {
        ProbeResult::Met(r) => {
            assert_eq!(r.summary, "http://x/status returned 200 and matched");
            assert_eq!(r.detail.to_text(), "{\"url\":\"http://x/status\",\"status\":200}");
        }
        _ => panic!("expected Met"),
    }
}

#[test]
fn json_path_mismatch_is_pending() {
    let mut p = http("http://x/status");
    p.json_paths = vec![parse_json_path("state=ready").unwrap()];
    match respond(&p, 200, r#"{"state": "running"}"#) {
        ProbeResult::Pending { note } => assert_eq!(note.unwrap(), "json path state != ready"),
        _ => panic!("expected Pending"),
    }
    match respond(&p, 200, "not json") {
        ProbeResult::Pending { note } => assert!(note.unwrap().starts_with("body is not JSON: ")),
        _ => panic!("expected Pending"),
    }
}

#[test]
fn connection_error_is_pending() {
    let p = http("http://127.0.0.1:1/x");
    match p.evaluate(HttpReply::RequestError("connection refused".into()), Err(String::new())) {
        ProbeResult::Pending { note } => assert_eq!(note.unwrap(), "request: connection refused"),
        _ => panic!("expected Pending"),
    }
    match p.evaluate(HttpReply::BodyError("eof".into()), Err(String::new())) {
        ProbeResult::Pending { note } => assert_eq!(note.unwrap(), "read body: eof"),
        _ => panic!("expected Pending"),
    }
}

#[test]
fn parse_json_path_rejects_missing_equals() {
    assert!(parse_json_path("no-equals-here").is_err());
    assert_eq!(
        parse_json_path("no-equals-here").err().unwrap(),
        "--json-path 'no-equals-here' must be <dot.path>=<value>"
    );
    assert_eq!(parse_json_path("=x").err().unwrap(), "--json-path '=x' has an empty path");
    let check = parse_json_path("a.b.0=v=w").ok().unwrap();
    assert_eq!(check.path, vec!["a", "b", "0"]);
    assert_eq!(check.expected, "v=w");
}

#[test]
fn lookup_follows_keys_and_indices() {
    let doc = parse(r#"{"a": [10, {"b": null}], "t": true, "f": 1.5, "n": -3}"#).unwrap();
    let path = |p: &str| p.split('.').map(String::from).collect::<Vec<_>>();
    assert!(matches!(lookup(&doc, &path("a.0")), Some(Json::UInt(10))));
    assert!(matches!(lookup(&doc, &path("a.+1.b")), Some(Json::Null)));
    assert!(lookup(&doc, &path("a.2")).is_none());
    assert!(lookup(&doc, &path("a.x")).is_none());
    assert!(lookup(&doc, &path("t.x")).is_none());
    assert!(value_matches(lookup(&doc, &path("t")).unwrap(), "true"));
    assert!(value_matches(lookup(&doc, &path("f")).unwrap(), "1.5"));
    assert!(value_matches(lookup(&doc, &path("n")).unwrap(), "-3"));
    assert!(value_matches(lookup(&doc, &path("a.1.b")).unwrap(), "null"));
    assert!(!value_matches(lookup(&doc, &path("a")).unwrap(), "[]"));
}

#[test]
fn header_parsing() {
    assert_eq!(parse_header(" X-Key :  v: w ").ok().unwrap(), ("X-Key".to_string(), "v: w".to_string()));
    assert_eq!(parse_header("nocolon").err().unwrap(), "--header 'nocolon' must be 'Name: value'");
}

fn cmd(argv: &[&str]) -> CmdProbe {
    CmdProbe { argv: argv.iter().map(|s| s.to_string()).collect(), ok_output: None }
}

fn exited(success: bool, code: i32, stdout: &str) -> CmdRun {
    CmdRun::Exited { success, code: Some(code), stdout: stdout.as_bytes().to_vec(), stderr: vec![] }
}

#[test]
fn exit_zero_is_met() {
    let p = cmd(&["true"]);
    match p.evaluate(exited(true, 0, "")) {
        ProbeResult::Met(r) => {
            assert_eq!(r.summary, "command succeeded (exit 0)");
            assert_eq!(r.detail.to_text(), "{\"argv\":[\"true\"],\"exit\":0}");
        }
        _ => panic!("expected Met"),
    }
}

#[test]
fn nonzero_exit_is_pending() {
    let p = cmd(&["false"]);
    match p.evaluate(exited(false, 1, "")) {
        ProbeResult::Pending { note } => assert_eq!(note.unwrap(), "exit 1"),
        _ => panic!("expected Pending"),
    }
    match p.evaluate(CmdRun::Exited { success: false, code: None, stdout: vec![], stderr: vec![] }) {
        ProbeResult::Pending { note } => assert_eq!(note.unwrap(), "exit -1"),
        _ => panic!("expected Pending"),
    }
}

#[test]
fn ok_output_overrides_exit_code() {
    let mut p = cmd(&["sh", "-c", "echo state=ready; exit 1"]);
    p.ok_output = Some(Pattern::new("state=ready").ok().unwrap());
    assert!(matches!(p.evaluate(exited(false, 1, "state=ready\n")), ProbeResult::Met(_)));
}

#[test]
fn ok_output_not_matching_is_pending_even_on_exit_zero() {
    let mut p = cmd(&["sh", "-c", "echo state=starting; exit 0"]);
    p.ok_output = Some(Pattern::new("state=ready").ok().unwrap());
    assert!(matches!(p.evaluate(exited(true, 0, "state=starting\n")), ProbeResult::Pending { .. }));
}

#[test]
fn ok_output_matches_stderr_too() {
    let mut p = cmd(&["x"]);
    p.ok_output = Some(Pattern::new("^ab$").ok().unwrap());
    let run = CmdRun::Exited { success: false, code: Some(3), stdout: b"a".to_vec(), stderr: b"b".to_vec() };
    assert!(matches!(p.evaluate(run), ProbeResult::Met(_)));
    assert!(Pattern::new("(").is_err());
}

#[test]
fn missing_binary_is_pending_with_note() {
    let p = cmd(&["tarry-test-no-such-binary-zz"]);
    match p.evaluate(CmdRun::SpawnFailed("No such file or directory (os error 2)".into())) {
        ProbeResult::Pending { note } => assert_eq!(
            note.unwrap(),
            "spawn tarry-test-no-such-binary-zz: No such file or directory (os error 2)"
        ),
        _ => panic!("expected Pending"),
    }
}

fn file(path: &str, matcher: FileMatcher) -> FileProbe {
    FileProbe { path: path.into(), matcher }
}

#[test]
fn missing_file_is_pending() {
    let p = file("/tmp/absent.txt", FileMatcher::Exists);
    assert!(!p.reads_content());
    match p.evaluate(FileLook::Metadata(None)) {
        ProbeResult::Pending { note } => assert_eq!(note.unwrap(), "/tmp/absent.txt does not exist"),
        _ => panic!("expected Pending"),
    }
}

#[test]
fn existing_file_without_matcher_is_met() {
    let p = file("out.txt", FileMatcher::Exists);
    match p.evaluate(FileLook::Metadata(Some(5))) {
        ProbeResult::Met(r) => {
            assert_eq!(r.summary, "out.txt exists");
            assert_eq!(r.detail.to_text(), "{\"path\":\"out.txt\",\"bytes\":5}");
        }
        _ => panic!("expected Met"),
    }
}

#[test]
fn contains_matcher_pending_until_content_appears() {
    let p = file("log.txt", FileMatcher::Contains("done".into()));
    assert!(p.reads_content());
    match p.evaluate(FileLook::Content(b"starting".to_vec())) {
        ProbeResult::Pending { note } => assert_eq!(note.unwrap(), "file exists but does not match yet"),
        _ => panic!("expected Pending"),
    }
    assert!(matches!(p.evaluate(FileLook::Content(b"starting\ndone".to_vec())), ProbeResult::Met(_)));
    assert!(matches!(p.evaluate(FileLook::NotFound), ProbeResult::Pending { .. }));
    match p.evaluate(FileLook::ReadError("denied".into())) {
        ProbeResult::Pending { note } => assert_eq!(note.unwrap(), "read log.txt: denied"),
        _ => panic!("expected Pending"),
    }
}

#[test]
fn non_utf8_file_without_matcher_is_met() {
    // Without a matcher only the metadata is consulted, so binary content
    // such as [0xff, 0xfe, 0x00, 0x80] never needs to decode.
    let p = file("binary.dat", FileMatcher::Exists);
    assert!(!p.reads_content());
    match p.evaluate(FileLook::Metadata(Some(4))) {
        ProbeResult::Met(r) => assert_eq!(r.detail.to_text(), "{\"path\":\"binary.dat\",\"bytes\":4}"),
        _ => panic!("expected Met"),
    }
}

#[test]
fn non_utf8_file_with_matcher_still_matches_lossily() {
    let mut bytes = vec![0xff, 0xfe];
    bytes.extend_from_slice(b"status: done\n");
    let p = file("mixed.log", FileMatcher::Contains("status: done".into()));
    match p.evaluate(FileLook::Content(bytes)) {
        ProbeResult::Met(r) => assert_eq!(r.detail.to_text(), "{\"path\":\"mixed.log\",\"bytes\":15}"),
        _ => panic!("expected Met"),
    }
}

#[test]
fn regex_matcher_matches() {
    let p = file(
        "log.txt",
        FileMatcher::Regex(Pattern::new(r"state: (READY|FAILED)").ok().unwrap()),
    );
    assert!(matches!(p.evaluate(FileLook::Content(b"state: READY".to_vec())), ProbeResult::Met(_)));
}

fn tcp(addr: &str) -> TcpProbe {
    TcpProbe { addr: addr.into(), connect_timeout: 1_000_000_000 }
}

#[test]
fn open_port_is_met() {
    match tcp("127.0.0.1:8080").evaluate(TcpAttempt::Connected) {
        ProbeResult::Met(r) => {
            assert_eq!(r.summary, "127.0.0.1:8080 accepts connections");
            assert_eq!(r.detail.to_text(), "{\"addr\":\"127.0.0.1:8080\"}");
        }
        _ => panic!("expected Met"),
    }
}

#[test]
fn closed_port_is_pending() {
    match tcp("127.0.0.1:9").evaluate(TcpAttempt::ConnectFailed("connection refused".into())) {
        ProbeResult::Pending { note } => assert_eq!(note.unwrap(), "connect 127.0.0.1:9: connection refused"),
        _ => panic!("expected Pending"),
    }
}

#[test]
fn unresolvable_host_is_pending_with_note() {
    match tcp("host.invalid:1").evaluate(TcpAttempt::ResolveFailed("not known".into())) {
        ProbeResult::Pending { note } => assert_eq!(note.unwrap(), "resolve host.invalid:1: not known"),
        _ => panic!("expected Pending"),
    }
    match tcp("h:1").evaluate(TcpAttempt::NoAddress) {
        ProbeResult::Pending { note } => assert_eq!(note.unwrap(), "h:1 resolved to no addresses"),
        _ => panic!("expected Pending"),
    }
}

#[test]
fn every_resolved_address_is_tried() {
    assert!(matches!(attempt_from(vec![]), TcpAttempt::NoAddress));
    assert!(matches!(
        attempt_from(vec![Connect::Refused("refused v6".into()), Connect::Accepted]),
        TcpAttempt::Connected
    ));
    match attempt_from(vec![Connect::Refused("first".into()), Connect::Refused("last".into())]) {
        TcpAttempt::ConnectFailed(e) => assert_eq!(e, "last"),
        _ => panic!("expected ConnectFailed"),
    }
    match tcp("localhost:9").evaluate(attempt_from(vec![Connect::Refused("refused".into())])) {
        ProbeResult::Pending { note } => assert_eq!(note.unwrap(), "connect localhost:9: refused"),
        _ => panic!("expected Pending"),
    }
}
