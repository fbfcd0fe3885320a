//! Waiting for a command to succeed.

use vstd::prelude::*;

use crate::json::{json_view, Json, JsonValue};
use crate::pattern::{regex_finds, Pattern};
use crate::probe::{Observation, ProbeResult, Report};
use crate::text::{lossy_utf8, push_all, push_signed, push_string, signed_decimal, string_of, string_views, utf8_lossy};

verus! {

/// A wait on a command: it succeeds when it exits 0, or, with `ok_output`,
/// when its combined output matches.
pub struct CmdProbe {
    /// The command and its arguments.
    pub argv: Vec<String>,
    /// Treat a match of this pattern against combined stdout+stderr as
    /// success, regardless of exit code.
    pub ok_output: Option<Pattern>,
}

/// How one run of the command went.
pub enum CmdRun {
    /// The command could not be started.
    SpawnFailed(String),
    /// The command ran; `code` is its exit code when it exited normally.
    Exited { success: bool, code: Option<i32>, stdout: Vec<u8>, stderr: Vec<u8> },
}

/// The exit code as text, -1 when there is none.
pub open spec fn exit_text(code: Option<i32>) -> Seq<char> {
    signed_decimal(
        match code {
            Some(c) => c as int,
            None => -1,
        },
    )
}

/// What one run of the command says about the wait.
pub open spec fn cmd_outcome(p: CmdProbe, run: CmdRun) -> Observation {
    match run {
        CmdRun::SpawnFailed(e) => Observation::Pending(Some("spawn "@ + p.argv@[0]@ + ": "@ + e@)),
        CmdRun::Exited { success, code, stdout, stderr } => {
            let combined = utf8_lossy(stdout@) + utf8_lossy(stderr@);
            let met = match p.ok_output {
                Some(re) => regex_finds(re@, combined),
                None => success,
            };
            if met {
                Observation::Met(
                    "command succeeded (exit "@ + exit_text(code) + ")"@,
                    JsonValue::Object(
                        seq![
                            ("argv"@, JsonValue::Array(
                                Seq::new(p.argv@.len(), |i: int| JsonValue::Str(p.argv@[i]@)),
                            )),
                            ("exit"@, match code {
                                Some(c) => JsonValue::Int(c as int),
                                None => JsonValue::Null,
                            }),
                        ],
                    ),
                )
            } else {
                Observation::Pending(Some("exit "@ + exit_text(code)))
            }
        },
    }
}

/// Without an output pattern only the exit status counts: what the command
/// wrote to stdout and stderr changes nothing, and it meets the wait
/// exactly when it exited successfully, as "command succeeded (exit <code>)";
/// otherwise the wait stays pending as "exit <code>".
pub proof fn lemma_exit_status_decides(
    p: CmdProbe,
    success: bool,
    code: Option<i32>,
    stdout: Vec<u8>,
    stderr: Vec<u8>,
    other_stdout: Vec<u8>,
    other_stderr: Vec<u8>,
)
    requires
        p.ok_output is None,
    ensures
        cmd_outcome(p, CmdRun::Exited { success, code, stdout, stderr }) == cmd_outcome(
            p,
            CmdRun::Exited { success, code, stdout: other_stdout, stderr: other_stderr },
        ),
        cmd_outcome(p, CmdRun::Exited { success, code, stdout, stderr }) is Met <==> success,
        cmd_outcome(p, CmdRun::Exited { success, code, stdout, stderr }) is Met ==> cmd_outcome(
            p,
            CmdRun::Exited { success, code, stdout, stderr },
        )->Met_0 == "command succeeded (exit "@ + exit_text(code) + ")"@,
        !success ==> cmd_outcome(p, CmdRun::Exited { success, code, stdout, stderr })
            == Observation::Pending(Some("exit "@ + exit_text(code))),
{
}

/// With an output pattern only the output counts: the command meets the
/// wait exactly when the pattern finds a match in its stdout followed by
/// its stderr, each decoded lossily, whatever its exit status.
pub proof fn lemma_output_decides(
    p: CmdProbe,
    success: bool,
    code: Option<i32>,
    other_success: bool,
    other_code: Option<i32>,
    stdout: Vec<u8>,
    stderr: Vec<u8>,
)
    requires
        p.ok_output is Some,
    ensures
        cmd_outcome(p, CmdRun::Exited { success, code, stdout, stderr }) is Met <==> regex_finds(
            p.ok_output->0@,
            utf8_lossy(stdout@) + utf8_lossy(stderr@),
        ),
        cmd_outcome(p, CmdRun::Exited { success, code, stdout, stderr }) is Met <==> cmd_outcome(
            p,
            CmdRun::Exited { success: other_success, code: other_code, stdout, stderr },
        ) is Met,
{
}

/// A command that cannot be started leaves the wait pending.
pub proof fn lemma_spawn_failure_is_pending(p: CmdProbe, e: String)
    ensures
        cmd_outcome(p, CmdRun::SpawnFailed(e)) is Pending,
{
}

impl CmdProbe {
    /// Condition name as it appears in the verdict.
    pub fn name(&self) -> (res: &'static str)
        ensures
            res@ == "cmd"@,
    {
        "cmd"
    }

    /// Judges one run of the command.
    pub fn evaluate(&self, run: CmdRun) -> (res: ProbeResult)
        requires
            self.argv@.len() > 0,
        ensures
            res@ == cmd_outcome(*self, run),
    {
        match run {
            CmdRun::SpawnFailed(e) => {
                let mut note: Vec<char> = Vec::new();
                push_all(&mut note, "spawn ");
                push_string(&mut note, &self.argv[0]);
                push_all(&mut note, ": ");
                push_string(&mut note, &e);
                crate::probe::pending(note)
            },
            CmdRun::Exited { success, code, stdout, stderr } => {
                let out = lossy_utf8(stdout.as_slice());
                let err = lossy_utf8(stderr.as_slice());
                let mut combined: Vec<char> = Vec::new();
                push_string(&mut combined, &out);
                push_string(&mut combined, &err);
                let combined_text = string_of(&combined);
                let met = match &self.ok_output {
                    Some(re) => re.is_match(combined_text.as_str()),
                    None => success,
                };
                let exit: i64 = match code {
                    Some(c) => c as i64,
                    None => -1,
                };
                if met {
                    let mut summary: Vec<char> = Vec::new();
                    push_all(&mut summary, "command succeeded (exit ");
                    push_signed(&mut summary, exit);
                    push_all(&mut summary, ")");
                    let mut items: Vec<Json> = Vec::new();
                    let n = self.argv.len();
                    for i in 0..n
                        invariant
                            n == self.argv@.len(),
                            items@.len() == i,
                            crate::json::items_view(items@) =~= Seq::new(
                                i as nat,
                                |j: int| JsonValue::Str(self.argv@[j]@),
                            ),
                    {
                        let ghost before = items@;
                        let arg = self.argv[i].clone();
                        assert(arg@ == self.argv@[i as int]@);
                        items.push(Json::Str(arg));
                        assert(items@.drop_last() == before);
                        assert(items@.last() == Json::Str(arg));
                        assert(json_view(Json::Str(arg)) == JsonValue::Str(arg@));
                        assert(items@.len() > 0);
                        assert(crate::json::items_view(items@) == crate::json::items_view(before).push(
                            JsonValue::Str(self.argv@[i as int]@),
                        ));
                    }
                    let exit_value = match code {
                        Some(c) => Json::Int(c as i64),
                        None => Json::Null,
                    };
                    let mut members: Vec<(String, Json)> = Vec::new();
                    members.push((String::from_str("argv"), Json::Array(items)));
                    members.push((String::from_str("exit"), exit_value));
                    proof {
                        crate::json::lemma_members_view(members@);
                        assert(crate::json::members_view(members@) =~= seq![
                            ("argv"@, JsonValue::Array(
                                Seq::new(self.argv@.len(), |i: int| JsonValue::Str(self.argv@[i]@)),
                            )),
                            ("exit"@, match code {
                                Some(c) => JsonValue::Int(c as int),
                                None => JsonValue::Null,
                            }),
                        ]);
                    }
                    let r = ProbeResult::Met(Report { summary: string_of(&summary), detail: Json::Object(members) });
                    assert(r@ == cmd_outcome(*self, run));
                    r
                } else {
                    let mut note: Vec<char> = Vec::new();
                    push_all(&mut note, "exit ");
                    push_signed(&mut note, exit);
                    crate::probe::pending(note)
                }
            },
        }
    }
}

} // verus!
