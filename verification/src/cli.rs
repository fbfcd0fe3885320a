//! The command line as plain values, its defaults, and the probes it asks
//! for. Durations are whole nanoseconds.

use vstd::prelude::*;

use crate::engine::{EngineConfig, IntervalPolicy};
use crate::pattern::{regex_error, Pattern};
use crate::probes::cmd::CmdProbe;
use crate::probes::file::{FileMatcher, FileProbe};
use crate::probes::http::{header_spec, json_path_spec, parse_header, parse_json_path, HttpProbe, JsonPathCheck};
use crate::probes::tcp::TcpProbe;
use crate::text::{push_all, push_string, string_of, string_views};

verus! {

/// Output format of the verdict.
#[derive(Clone, Copy, PartialEq, Eq, Debug, Structural)]
pub enum OutputFormat {
    Json,
    Text,
}

/// The parsed command line.
pub struct Cli {
    /// Give up after this long. Default 10m (30m for a run).
    pub timeout: Option<u64>,
    /// Fixed poll interval. Default: adaptive 2s..30s (fixed 10s for a run).
    pub interval: Option<u64>,
    /// Output format. Default: json when piped, text on a TTY.
    pub output: Option<OutputFormat>,
    pub command: Command,
}

/// Arguments for `gh run`.
pub struct RunArgs {
    /// Run id. Defaults to the latest run for the current repo and branch.
    pub run_id: Option<u64>,
    /// Repository as owner/name. Defaults to the repo of the current directory.
    pub repo: Option<String>,
    /// Resolve the latest run of this workflow (name or file). Takes priority
    /// over current-branch inference, so it finds tag-triggered runs (e.g.
    /// releases); pass --branch to also scope by branch.
    pub workflow: Option<String>,
    /// Filter the latest-run lookup by branch.
    pub branch: Option<String>,
}

/// GitHub waits, namespaced to mirror the `gh` CLI (`gh run`, ...).
pub enum GhCommand {
    /// Wait for a GitHub Actions run to complete.
    Run(RunArgs),
}

/// What to wait for.
pub enum Command {
    /// Wait on GitHub Actions, via the gh CLI.
    Gh { command: GhCommand },
    /// Wait for an HTTP endpoint to match.
    Http {
        url: String,
        status: Option<u16>,
        contains: Vec<String>,
        json_path: Vec<String>,
        headers: Vec<String>,
    },
    /// Wait for a TCP port to accept connections.
    Tcp { addr: String },
    /// Wait for a file to exist (and optionally match).
    File { path: String, contains: Option<String>, regex: Option<String> },
    /// Wait for a command to succeed (exit 0, or --ok-output match).
    Cmd { ok_output: Option<String>, command: Vec<String> },
    /// Print the machine-readable contract.
    Schema,
}

/// Ten minutes, the default timeout.
pub const DEFAULT_TIMEOUT: u64 = 600_000_000_000;

/// Thirty minutes, the default timeout of a run wait.
pub const RUN_TIMEOUT: u64 = 1_800_000_000_000;

/// Ten seconds, the default interval of a run wait.
pub const RUN_INTERVAL: u64 = 10_000_000_000;

/// The engine configuration the command line asks for: an explicit timeout
/// or the default (30 minutes for a run, 10 otherwise); an explicit interval
/// as a fixed policy, else a fixed 10 seconds for a run, else an adaptive
/// policy from 2 seconds growing by half each time up to 30 seconds.
pub open spec fn engine_config_spec(cli: Cli) -> EngineConfig {
    let is_run = cli.command is Gh;
    EngineConfig {
        timeout: match cli.timeout {
            Some(t) => t,
            None => if is_run {
                RUN_TIMEOUT
            } else {
                DEFAULT_TIMEOUT
            },
        },
        interval: match cli.interval {
            Some(d) => IntervalPolicy::Fixed(d),
            None => if is_run {
                IntervalPolicy::Fixed(RUN_INTERVAL)
            } else {
                IntervalPolicy::Adaptive { start: 2_000_000_000, factor_num: 3, factor_den: 2, cap: 30_000_000_000 }
            },
        },
    }
}

/// The engine configuration the command line asks for.
pub fn engine_config(cli: &Cli) -> (res: EngineConfig)
    ensures
        res == engine_config_spec(*cli),
        res.interval.valid(),
{
    let is_run = match cli.command {
        Command::Gh { .. } => true,
        _ => false,
    };
    let timeout = match cli.timeout {
        Some(t) => t,
        None => if is_run {
            RUN_TIMEOUT
        } else {
            DEFAULT_TIMEOUT
        },
    };
    let interval = match cli.interval {
        Some(d) => IntervalPolicy::Fixed(d),
        None => if is_run {
            IntervalPolicy::Fixed(RUN_INTERVAL)
        } else {
            IntervalPolicy::Adaptive { start: 2_000_000_000, factor_num: 3, factor_den: 2, cap: 30_000_000_000 }
        },
    };
    EngineConfig { timeout, interval }
}

/// An explicit `--timeout` is always the timeout, and an explicit
/// `--interval` always a fixed interval, whatever the command. Only when
/// one is absent does the command's default apply: for a run, 30 minutes
/// and a fixed 10 seconds; otherwise 10 minutes and an interval from 2
/// seconds, growing by half each time, up to 30 seconds.
pub proof fn lemma_explicit_flags_win(cli: Cli)
    ensures
        cli.timeout matches Some(t) ==> engine_config_spec(cli).timeout == t,
        cli.interval matches Some(d) ==> engine_config_spec(cli).interval == IntervalPolicy::Fixed(d),
        cli.timeout is None ==> engine_config_spec(cli).timeout == if cli.command is Gh {
            1_800_000_000_000u64
        } else {
            600_000_000_000u64
        },
        cli.interval is None ==> engine_config_spec(cli).interval == if cli.command is Gh {
            IntervalPolicy::Fixed(10_000_000_000)
        } else {
            IntervalPolicy::Adaptive {
                start: 2_000_000_000,
                factor_num: 3,
                factor_den: 2,
                cap: 30_000_000_000,
            }
        },
{
}

/// Whether a run wait resolves its branch from the working directory: only
/// a bare `gh run`, with no branch, run id, repository or workflow given.
pub open spec fn infers_branch_spec(args: RunArgs) -> bool {
    args.branch is None && args.run_id is None && args.repo is None && args.workflow is None
}

/// The branch is inferred only for a bare run: a given workflow, run id,
/// repository or branch each rules it out.
pub proof fn lemma_no_inference_when_narrowed(args: RunArgs)
    ensures
        args.workflow is Some ==> !infers_branch_spec(args),
        args.run_id is Some ==> !infers_branch_spec(args),
        args.repo is Some ==> !infers_branch_spec(args),
        args.branch is Some ==> !infers_branch_spec(args),
        (args.workflow is None && args.run_id is None && args.repo is None && args.branch is None)
            ==> infers_branch_spec(args),
{
}

/// Whether a run wait resolves its branch from the working directory.
pub fn infers_branch(args: &RunArgs) -> (res: bool)
    ensures
        res == infers_branch_spec(*args),
{
    args.branch.is_none() && args.run_id.is_none() && args.repo.is_none() && args.workflow.is_none()
}

/// A probe the command line asks for, before any outside check.
pub enum ProbeSpec {
    Run(RunArgs),
    Http(HttpProbe),
    Tcp(TcpProbe),
    File(FileProbe),
    Cmd(CmdProbe),
}

/// The first of `specs` that is not a valid `--json-path`, with its error.
pub open spec fn first_json_path_error(specs: Seq<Seq<char>>) -> Option<Seq<char>>
    decreases specs.len(),
{
    if specs.len() == 0 {
        None
    } else {
        match json_path_spec(specs[0]) {
            Err(e) => Some(e),
            Ok(_) => first_json_path_error(specs.drop_first()),
        }
    }
}

/// The first of `specs` that is not a valid `--header`, with its error.
pub open spec fn first_header_error(specs: Seq<Seq<char>>) -> Option<Seq<char>>
    decreases specs.len(),
{
    if specs.len() == 0 {
        None
    } else {
        match header_spec(specs[0]) {
            Err(e) => Some(e),
            Ok(_) => first_header_error(specs.drop_first()),
        }
    }
}

/// The checks of parsed `--json-path` arguments, as paths and values.
pub open spec fn check_views(checks: Seq<JsonPathCheck>) -> Seq<Result<(Seq<Seq<char>>, Seq<char>), Seq<char>>> {
    Seq::new(checks.len(), |i: int| Ok((string_views(checks[i].path@), checks[i].expected@)))
}

/// The headers of parsed `--header` arguments.
pub open spec fn header_views(headers: Seq<(String, String)>) -> Seq<Result<(Seq<char>, Seq<char>), Seq<char>>> {
    Seq::new(headers.len(), |i: int| Ok((headers[i].0@, headers[i].1@)))
}

fn parse_json_paths(specs: &Vec<String>) -> (res: Result<Vec<JsonPathCheck>, String>)
    ensures
        match res {
            Ok(checks) => first_json_path_error(string_views(specs@)) is None && check_views(checks@)
                == Seq::new(specs@.len(), |i: int| json_path_spec(specs@[i]@)),
            Err(e) => first_json_path_error(string_views(specs@)) == Some(e@),
        },
{
    let mut checks: Vec<JsonPathCheck> = Vec::new();
    let n = specs.len();
    assert(string_views(specs@).skip(0) == string_views(specs@));
    for i in 0..n
        invariant
            n == specs@.len(),
            first_json_path_error(string_views(specs@)) == first_json_path_error(
                string_views(specs@).skip(i as int),
            ),
            checks@.len() == i,
            forall|j: int|
                0 <= j < i ==> json_path_spec(specs@[j]@) == Ok::<(Seq<Seq<char>>, Seq<char>), Seq<char>>(
                    (string_views(#[trigger] checks@[j].path@), checks@[j].expected@),
                ),
    {
        let ghost rest = string_views(specs@).skip(i as int);
        assert(rest[0] == specs@[i as int]@);
        assert(rest.drop_first() == string_views(specs@).skip(i + 1));
        match parse_json_path(specs[i].as_str()) {
            Ok(check) => {
                checks.push(check);
            },
            Err(e) => {
                return Err(e);
            },
        }
    }
    assert(string_views(specs@).skip(n as int).len() == 0);
    assert(check_views(checks@) =~= Seq::new(specs@.len(), |i: int| json_path_spec(specs@[i]@)));
    Ok(checks)
}

fn parse_headers(specs: &Vec<String>) -> (res: Result<Vec<(String, String)>, String>)
    ensures
        match res {
            Ok(headers) => first_header_error(string_views(specs@)) is None && header_views(headers@)
                == Seq::new(specs@.len(), |i: int| header_spec(specs@[i]@)),
            Err(e) => first_header_error(string_views(specs@)) == Some(e@),
        },
{
    let mut headers: Vec<(String, String)> = Vec::new();
    let n = specs.len();
    assert(string_views(specs@).skip(0) == string_views(specs@));
    for i in 0..n
        invariant
            n == specs@.len(),
            first_header_error(string_views(specs@)) == first_header_error(
                string_views(specs@).skip(i as int),
            ),
            headers@.len() == i,
            forall|j: int|
                0 <= j < i ==> header_spec(specs@[j]@) == Ok::<(Seq<char>, Seq<char>), Seq<char>>(
                    ((#[trigger] headers@[j]).0@, headers@[j].1@),
                ),
    {
        let ghost rest = string_views(specs@).skip(i as int);
        assert(rest[0] == specs@[i as int]@);
        assert(rest.drop_first() == string_views(specs@).skip(i + 1));
        match parse_header(specs[i].as_str()) {
            Ok(h) => {
                headers.push(h);
            },
            Err(e) => {
                return Err(e);
            },
        }
    }
    assert(string_views(specs@).skip(n as int).len() == 0);
    assert(header_views(headers@) =~= Seq::new(specs@.len(), |i: int| header_spec(specs@[i]@)));
    Ok(headers)
}

/// The usage error of a pattern that does not compile: the flag, a colon,
/// and the message of `regex`.
pub open spec fn pattern_error(flag: Seq<char>, source: Seq<char>) -> Option<Seq<char>> {
    match regex_error(source) {
        Some(e) => Some(flag + ": "@ + e),
        None => None,
    }
}

fn compile_flag(flag: &str, source: &String) -> (res: Result<Pattern, String>)
    ensures
        match res {
            Ok(p) => pattern_error(flag@, source@) is None && p@ == source@,
            Err(e) => pattern_error(flag@, source@) == Some(e@),
        },
{
    match Pattern::new(source.as_str()) {
        Ok(p) => Ok(p),
        Err(e) => {
            let mut msg: Vec<char> = Vec::new();
            push_all(&mut msg, flag);
            push_all(&mut msg, ": ");
            push_string(&mut msg, &e);
            Err(string_of(&msg))
        },
    }
}

/// The probe a command asks for, or its usage error: the first invalid
/// `--json-path`, then the first invalid `--header`, or a `--regex` or
/// `--ok-output` pattern that does not compile. A `gh run` keeps its
/// arguments for the checks that need the outside world.
pub open spec fn probe_spec_ok(command: Command, res: ProbeSpec) -> bool {
    match command {
        Command::Gh { command: GhCommand::Run(args) } => res == ProbeSpec::Run(args),
        Command::Http { url, status, contains, json_path, headers } => match res {
            ProbeSpec::Http(p) => p.url == url && p.status == status && p.contains == contains
                && check_views(p.json_paths@) == Seq::new(
                json_path@.len(),
                |i: int| json_path_spec(json_path@[i]@),
            ) && header_views(p.headers@) == Seq::new(
                headers@.len(),
                |i: int| header_spec(headers@[i]@),
            ) && p.request_timeout == 10_000_000_000,
            _ => false,
        },
        Command::Tcp { addr } => res == ProbeSpec::Tcp(TcpProbe { addr, connect_timeout: 5_000_000_000 }),
        Command::File { path, contains, regex } => match res {
            ProbeSpec::File(p) => p.path == path && match (contains, regex) {
                (Some(s), None) => p.matcher == FileMatcher::Contains(s),
                (None, Some(r)) => p.matcher matches FileMatcher::Regex(re) && re@ == r@,
                _ => p.matcher is Exists,
            },
            _ => false,
        },
        Command::Cmd { ok_output, command } => match res {
            ProbeSpec::Cmd(p) => p.argv == command && match ok_output {
                Some(o) => p.ok_output matches Some(re) && re@ == o@,
                None => p.ok_output is None,
            },
            _ => false,
        },
        Command::Schema => false,
    }
}

/// The usage error a command gives, if any.
pub open spec fn usage_error(command: Command) -> Option<Seq<char>> {
    match command {
        Command::Http { json_path, headers, .. } => match first_json_path_error(string_views(json_path@)) {
            Some(e) => Some(e),
            None => first_header_error(string_views(headers@)),
        },
        Command::File { regex: Some(r), contains: None, .. } => pattern_error("--regex"@, r@),
        Command::Cmd { ok_output: Some(o), .. } => pattern_error("--ok-output"@, o@),
        _ => None,
    }
}

/// Builds the probe a command asks for. The schema command asks for none,
/// and a file wait cannot have both `--contains` and `--regex`; the command
/// line parser rules both out.
pub fn build_probe(command: Command) -> (res: Result<ProbeSpec, String>)
    requires
        !(command is Schema),
        !(command matches Command::File { contains: Some(_), regex: Some(_), .. }),
    ensures
        match res {
            Ok(p) => usage_error(command) is None && probe_spec_ok(command, p),
            Err(e) => usage_error(command) == Some(e@),
        },
{
    match command {
        Command::Gh { command: GhCommand::Run(args) } => Ok(ProbeSpec::Run(args)),
        Command::Http { url, status, contains, json_path, headers } => {
            let json_paths = match parse_json_paths(&json_path) {
                Ok(c) => c,
                Err(e) => return Err(e),
            };
            let headers = match parse_headers(&headers) {
                Ok(h) => h,
                Err(e) => return Err(e),
            };
            Ok(ProbeSpec::Http(HttpProbe { url, status, contains, json_paths, headers, request_timeout: 10_000_000_000 }))
        },
        Command::Tcp { addr } => Ok(ProbeSpec::Tcp(TcpProbe { addr, connect_timeout: 5_000_000_000 })),
        Command::File { path, contains, regex } => {
            let matcher = match (contains, regex) {
                (Some(s), None) => FileMatcher::Contains(s),
                (None, Some(r)) => match compile_flag("--regex", &r) {
                    Ok(p) => FileMatcher::Regex(p),
                    Err(e) => return Err(e),
                },
                _ => FileMatcher::Exists,
            };
            Ok(ProbeSpec::File(FileProbe { path, matcher }))
        },
        Command::Cmd { ok_output, command } => {
            let ok_output = match ok_output {
                Some(o) => match compile_flag("--ok-output", &o) {
                    Ok(p) => Some(p),
                    Err(e) => return Err(e),
                },
                None => None,
            };
            Ok(ProbeSpec::Cmd(CmdProbe { argv: command, ok_output }))
        },
        Command::Schema => vstd::pervasive::unreached(),
    }
}

} // verus!
