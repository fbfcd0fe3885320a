//! The conditions a wait can be on.

pub mod cmd;
pub mod file;
pub mod gh;
pub mod http;
pub mod run;
pub mod tcp;

use vstd::prelude::*;

use crate::json::Json;
use crate::probe::Observation;

verus! {

/// Transient errors never fail a wait: whatever an HTTP request, a TCP
/// connection attempt, a command run or a look at a file gives, the result
/// is met or pending, never failed.
pub proof fn lemma_transient_errors_never_fail(
    http: http::HttpProbe,
    reply: http::HttpReply,
    parsed: Result<Json, String>,
    tcp: tcp::TcpProbe,
    attempt: tcp::TcpAttempt,
    cmd: cmd::CmdProbe,
    run: cmd::CmdRun,
    file: file::FileProbe,
    look: file::FileLook,
)
    ensures
        !(http::http_outcome(http, reply, parsed) is Failed),
        !(tcp::tcp_outcome(tcp, attempt) is Failed),
        !(cmd::cmd_outcome(cmd, run) is Failed),
        !(file::file_outcome(file, look) is Failed),
{
}

} // verus!
