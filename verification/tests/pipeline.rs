//! The library end to end: a command line, the probe it builds, the engine
//! driving it over a scripted world on a fake clock, and the verdict.

use std::collections::VecDeque;

use tarry::cli::{build_probe, engine_config, Cli, Command, ProbeSpec};
use tarry::engine::{step, EngineConfig, EngineOutcome, EngineState, Step};
use tarry::probe::ProbeResult;
use tarry::probes::cmd::CmdRun;
use tarry::probes::file::FileLook;
use tarry::probes::tcp::TcpAttempt;
use tarry::verdict::Verdict;

fn ms(n: u64) -> u64 {
    n * 1_000_000
}

fn cli(timeout: Option<u64>, interval: Option<u64>, command: Command) -> Cli {
    Cli { timeout, interval, output: None, command }
}

/// Polls until the engine says the wait is over; time passes only while
/// the engine sleeps.
fn drive(cfg: &EngineConfig, mut poll: impl FnMut() -> ProbeResult) -> EngineOutcome {
    let mut now: u64 = 0;
    let mut state = EngineState::start(cfg);
    loop {
        let result = poll();
        match step(cfg, state, result, now) {
            Step::Finished(outcome) => return outcome,
            Step::Sleep { sleep, state: next } => {
                now += sleep;
                state = next;
            }
        }
    }
}

/// Runs a wait for `command` in a world where the file, command or port
/// behaves as `world` says, poll after poll.
fn wait(c: Cli, world: Vec<World>) -> Verdict {
    let cfg = engine_config(&c);
    let spec = build_probe(c.command).ok().unwrap();
    let mut world: VecDeque<World> = world.into();
    let last = world.back().cloned().unwrap();
    let (name, outcome) = match spec {
        ProbeSpec::File(p) => {
            let name = p.name();
            (name, drive(&cfg, || match world.pop_front().unwrap_or(last.clone()) {
                World::File(look) => p.evaluate(look),
                _ => unreachable!(),
            }))
        }
        ProbeSpec::Cmd(p) => {
            let name = p.name();
            (name, drive(&cfg, || match world.pop_front().unwrap_or(last.clone()) {
                World::Cmd(run) => p.evaluate(run),
                _ => unreachable!(),
            }))
        }
        ProbeSpec::Tcp(p) => {
            let name = p.name();
            (name, drive(&cfg, || match world.pop_front().unwrap_or(last.clone()) {
                World::Tcp(attempt) => p.evaluate(attempt),
                _ => unreachable!(),
            }))
        }
        _ => unreachable!(),
    };
    Verdict::from_outcome(name, outcome)
}

enum World {
    File(FileLook),
    Cmd(CmdRun),
    Tcp(TcpAttempt),
}

impl Clone for World {
    fn clone(&self) -> Self {
        match self {
            World::File(FileLook::Metadata(m)) => World::File(FileLook::Metadata(*m)),
            World::File(FileLook::NotFound) => World::File(FileLook::NotFound),
            World::File(FileLook::ReadError(e)) => World::File(FileLook::ReadError(e.clone())),
            World::File(FileLook::Content(c)) => World::File(FileLook::Content(c.clone())),
            World::Cmd(CmdRun::SpawnFailed(e)) => World::Cmd(CmdRun::SpawnFailed(e.clone())),
            World::Cmd(CmdRun::Exited { success, code, stdout, stderr }) => World::Cmd(CmdRun::Exited {
                success: *success,
                code: *code,
                stdout: stdout.clone(),
                stderr: stderr.clone(),
            }),
            World::Tcp(TcpAttempt::Connected) => World::Tcp(TcpAttempt::Connected),
            World::Tcp(TcpAttempt::NoAddress) => World::Tcp(TcpAttempt::NoAddress),
            World::Tcp(TcpAttempt::ResolveFailed(e)) => World::Tcp(TcpAttempt::ResolveFailed(e.clone())),
            World::Tcp(TcpAttempt::ConnectFailed(e)) => World::Tcp(TcpAttempt::ConnectFailed(e.clone())),
        }
    }
}

fn exited(code: i32) -> World {
    World::Cmd(CmdRun::Exited { success: code == 0, code: Some(code), stdout: vec![], stderr: vec![] })
}

fn file_command(path: &str) -> Command {
    Command::File { path: path.into(), contains: None, regex: None }
}

#[test]
fn file_already_present_exits_0_with_json_when_piped() {
    let v = wait(cli(None, None, file_command("ready.txt")), vec![World::File(FileLook::Metadata(Some(4)))]);
    assert_eq!(v.exit_code(), 0);
    let json = v.render_json();
    assert!(json.contains("\"ok\":true"));
    assert!(json.contains("\"condition\":\"file\""));
}

#[test]
fn file_missing_times_out_with_exit_1() {
    let v = wait(
        cli(Some(ms(1_000)), Some(ms(200)), file_command("/nonexistent/tarry-test.txt")),
        vec![World::File(FileLook::Metadata(None))],
    );
    assert_eq!(v.exit_code(), 1);
    assert!(v.render_json().contains("\"kind\":\"timeout\""));
    assert_eq!(v.waited, ms(1_000));
    assert_eq!(v.polls, 6);
}

#[test]
fn cmd_succeeds_immediately() {
    let command = Command::Cmd { ok_output: None, command: vec!["true".into()] };
    let v = wait(cli(None, None, command), vec![exited(0)]);
    assert_eq!(v.exit_code(), 0);
    assert!(v.render_json().contains("\"condition\":\"cmd\""));
}

#[test]
fn cmd_flapping_succeeds_on_second_poll() {
    let command = Command::Cmd { ok_output: None, command: vec!["sh".into(), "-c".into(), "flap".into()] };
    let v = wait(cli(None, Some(ms(100)), command), vec![exited(1), exited(0)]);
    assert_eq!(v.exit_code(), 0);
    assert!(v.render_json().contains("\"polls\":2"));
}

#[test]
fn text_output_forced_with_o_flag() {
    let command = Command::Cmd { ok_output: None, command: vec!["true".into()] };
    let v = wait(cli(None, None, command), vec![exited(0)]);
    assert!(v.render_text().starts_with("ok:"));
}

#[test]
fn tcp_open_port_succeeds() {
    let v = wait(cli(None, None, Command::Tcp { addr: "127.0.0.1:4000".into() }), vec![World::Tcp(TcpAttempt::Connected)]);
    assert_eq!(v.exit_code(), 0);
}

#[test]
fn invalid_json_path_is_usage_error_exit_3() {
    let command = Command::Http {
        url: "http://127.0.0.1:1/".into(),
        status: None,
        contains: vec![],
        json_path: vec!["no-equals".into()],
        headers: vec![],
    };
    match build_probe(command) {
        Err(e) => assert!(e.contains("json-path")),
        Ok(_) => panic!("expected a usage error"),
    }
}
