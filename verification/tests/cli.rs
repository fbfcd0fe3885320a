use tarry::cli::{build_probe, engine_config, infers_branch, Cli, Command, GhCommand, ProbeSpec, RunArgs};
use tarry::engine::IntervalPolicy;
use tarry::probes::file::FileMatcher;

fn cli(command: Command) -> Cli {
    Cli { timeout: None, interval: None, output: None, command }
}

fn run_args() -> RunArgs {
    RunArgs { run_id: None, repo: None, workflow: None, branch: None }
}

#[test]
fn defaults_for_runs_and_other_waits() {
    let c = engine_config(&cli(Command::Gh { command: GhCommand::Run(run_args()) }));
    assert_eq!(c.timeout, 30 * 60 * 1_000_000_000);
    assert!(matches!(c.interval, IntervalPolicy::Fixed(10_000_000_000)));
    let c = engine_config(&cli(Command::Tcp { addr: "h:1".into() }));
    assert_eq!(c.timeout, 10 * 60 * 1_000_000_000);
    assert!(matches!(
        c.interval,
        IntervalPolicy::Adaptive { start: 2_000_000_000, factor_num: 3, factor_den: 2, cap: 30_000_000_000 }
    ));
    let mut explicit = cli(Command::Tcp { addr: "h:1".into() });
    explicit.timeout = Some(1_000_000_000);
    explicit.interval = Some(200_000_000);
    let c = engine_config(&explicit);
    assert_eq!(c.timeout, 1_000_000_000);
    assert!(matches!(c.interval, IntervalPolicy::Fixed(200_000_000)));
}

#[test]
fn branch_inference_only_for_a_bare_run() {
    assert!(infers_branch(&run_args()));
    let mut a = run_args();
    a.workflow = Some("Release".into());
    assert!(!infers_branch(&a));
    let mut a = run_args();
    a.run_id = Some(1);
    assert!(!infers_branch(&a));
    let mut a = run_args();
    a.repo = Some("o/r".into());
    assert!(!infers_branch(&a));
}

#[test]
fn invalid_json_path_is_a_usage_error() {
    let command = Command::Http {
        url: "http://127.0.0.1:1/".into(),
        status: None,
        contains: vec![],
        json_path: vec!["no-equals".into()],
        headers: vec!["bad".into()],
    };
    let err = build_probe(command).err().unwrap();
    assert!(err.contains("json-path"));
    let command = Command::Http {
        url: "u".into(),
        status: Some(200),
        contains: vec![],
        json_path: vec!["a=b".into()],
        headers: vec!["bad".into()],
    };
    assert_eq!(build_probe(command).err().unwrap(), "--header 'bad' must be 'Name: value'");
}

#[test]
fn probes_are_built_from_commands() {
    match build_probe(Command::File { path: "p".into(), contains: None, regex: Some("a+".into()) }) {
        Ok(ProbeSpec::File(f)) => assert!(matches!(f.matcher, FileMatcher::Regex(_))),
        _ => panic!("expected a file probe"),
    }
    match build_probe(Command::File { path: "p".into(), contains: None, regex: Some("(".into()) }) {
        Err(e) => assert!(e.starts_with("--regex: ")),
        _ => panic!("expected a usage error"),
    }
    match build_probe(Command::Cmd { ok_output: Some("[".into()), command: vec!["true".into()] }) {
        Err(e) => assert!(e.starts_with("--ok-output: ")),
        _ => panic!("expected a usage error"),
    }
    match build_probe(Command::Tcp { addr: "h:1".into() }) {
        Ok(ProbeSpec::Tcp(t)) => assert_eq!(t.connect_timeout, 5_000_000_000),
        _ => panic!("expected a tcp probe"),
    }
    match build_probe(Command::Http {
        url: "u".into(),
        status: None,
        contains: vec![],
        json_path: vec![],
        headers: vec!["A: b".into()],
    }) {
        Ok(ProbeSpec::Http(h)) => {
            assert_eq!(h.headers, vec![("A".to_string(), "b".to_string())]);
            assert_eq!(h.request_timeout, 10_000_000_000);
        }
        _ => panic!("expected an http probe"),
    }
}
