//! Waiting for a TCP port to accept connections.

use vstd::prelude::*;

use crate::json::{Json, JsonValue};
use crate::probe::{Observation, ProbeResult, Report};
use crate::text::{push_all, push_string, string_of};

verus! {

/// A wait on a TCP port.
pub struct TcpProbe {
    /// host:port
    pub addr: String,
    /// Nanoseconds a connection attempt may take.
    pub connect_timeout: u64,
}

/// How one connection attempt went.
pub enum TcpAttempt {
    /// The address did not resolve.
    ResolveFailed(String),
    /// The address resolved to nothing.
    NoAddress,
    /// Connecting failed on every resolved address; the error is the last.
    ConnectFailed(String),
    /// The connection was accepted.
    Connected,
}

/// How connecting to one resolved address went.
pub enum Connect {
    Accepted,
    Refused(String),
}

/// The attempt that connecting to the resolved addresses in turn makes:
/// none resolved, one of them accepted, or else every one refused, with the
/// error of the last.
pub open spec fn attempt_spec(connects: Seq<Connect>) -> TcpAttempt {
    if connects.len() == 0 {
        TcpAttempt::NoAddress
    } else if exists|i: int| 0 <= i < connects.len() && connects[i] is Accepted {
        TcpAttempt::Connected
    } else {
        match connects.last() {
            Connect::Refused(e) => TcpAttempt::ConnectFailed(e),
            Connect::Accepted => TcpAttempt::Connected,
        }
    }
}

/// Sums up connecting to each resolved address in turn.
pub fn attempt_from(connects: Vec<Connect>) -> (res: TcpAttempt)
    ensures
        res == attempt_spec(connects@),
{
    let n = connects.len();
    let mut i: usize = 0;
    while i < n
        invariant
            n == connects@.len(),
            i <= n,
            forall|j: int| 0 <= j < i ==> !(#[trigger] connects@[j] is Accepted),
        decreases n - i,
    {
        if matches!(connects[i], Connect::Accepted) {
            return TcpAttempt::Connected;
        }
        i += 1;
    }
    if n == 0 {
        return TcpAttempt::NoAddress;
    }
    let mut connects = connects;
    match connects.pop() {
        Some(Connect::Refused(e)) => TcpAttempt::ConnectFailed(e),
        _ => TcpAttempt::Connected,
    }
}

/// A TCP wait is met exactly when some resolved address accepted a
/// connection, wherever it stands among them; no address, or none
/// accepting, leaves it pending.
pub proof fn lemma_any_address_will_do(p: TcpProbe, connects: Seq<Connect>)
    ensures
        tcp_outcome(p, attempt_spec(connects)) is Met <==> exists|i: int|
            0 <= i < connects.len() && #[trigger] connects[i] is Accepted,
        !(tcp_outcome(p, attempt_spec(connects)) is Met) ==> tcp_outcome(p, attempt_spec(connects))
            is Pending,
{
    if connects.len() > 0 && !(exists|i: int| 0 <= i < connects.len() && #[trigger] connects[i] is Accepted) {
        assert(!(connects[connects.len() - 1] is Accepted));
    }
}

/// What one connection attempt says about the wait.
pub open spec fn tcp_outcome(p: TcpProbe, attempt: TcpAttempt) -> Observation {
    match attempt {
        TcpAttempt::ResolveFailed(e) => Observation::Pending(Some("resolve "@ + p.addr@ + ": "@ + e@)),
        TcpAttempt::NoAddress => Observation::Pending(Some(p.addr@ + " resolved to no addresses"@)),
        TcpAttempt::ConnectFailed(e) => Observation::Pending(Some("connect "@ + p.addr@ + ": "@ + e@)),
        TcpAttempt::Connected => Observation::Met(
            p.addr@ + " accepts connections"@,
            JsonValue::Object(seq![("addr"@, JsonValue::Str(p.addr@))]),
        ),
    }
}

impl TcpProbe {
    /// Condition name as it appears in the verdict.
    pub fn name(&self) -> (res: &'static str)
        ensures
            res@ == "tcp"@,
    {
        "tcp"
    }

    /// Judges one connection attempt.
    pub fn evaluate(&self, attempt: TcpAttempt) -> (res: ProbeResult)
        ensures
            res@ == tcp_outcome(*self, attempt),
    {
        let mut note: Vec<char> = Vec::new();
        match attempt {
            TcpAttempt::ResolveFailed(e) => {
                push_all(&mut note, "resolve ");
                push_string(&mut note, &self.addr);
                push_all(&mut note, ": ");
                push_string(&mut note, &e);
                crate::probe::pending(note)
            },
            TcpAttempt::NoAddress => {
                push_string(&mut note, &self.addr);
                push_all(&mut note, " resolved to no addresses");
                crate::probe::pending(note)
            },
            TcpAttempt::ConnectFailed(e) => {
                push_all(&mut note, "connect ");
                push_string(&mut note, &self.addr);
                push_all(&mut note, ": ");
                push_string(&mut note, &e);
                crate::probe::pending(note)
            },
            TcpAttempt::Connected => {
                let mut summary: Vec<char> = Vec::new();
                push_string(&mut summary, &self.addr);
                push_all(&mut summary, " accepts connections");
                let mut members: Vec<(String, Json)> = Vec::new();
                members.push((String::from_str("addr"), Json::Str(self.addr.clone())));
                proof {
                    crate::json::lemma_members_view(members@);
                    assert(crate::json::members_view(members@) =~= seq![("addr"@, JsonValue::Str(self.addr@))]);
                }
                let r = ProbeResult::Met(Report { summary: string_of(&summary), detail: Json::Object(members) });
                assert(r@ == tcp_outcome(*self, attempt));
                r
            },
        }
    }
}

} // verus!
