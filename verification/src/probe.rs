//! What one look at a condition can find.

use vstd::prelude::*;

use crate::json::{Json, JsonValue};

verus! {

/// Condition-specific result data for the final verdict.
pub struct Report {
    /// One-line human summary, e.g. "run 123 concluded success".
    pub summary: String,
    /// Structured detail for JSON output.
    pub detail: Json,
}

/// One observation of the condition.
pub enum ProbeResult {
    /// Condition not met yet. `note` carries the most recent transient
    /// error or status, surfaced in the verdict if the timeout expires.
    Pending { note: Option<String> },
    Met(Report),
    Failed(Report),
}

/// The mathematical form of a probe result.
pub enum Observation {
    Pending(Option<Seq<char>>),
    Met(Seq<char>, JsonValue),
    Failed(Seq<char>, JsonValue),
}

impl View for ProbeResult {
    type V = Observation;

    open spec fn view(&self) -> Observation {
        match self {
            ProbeResult::Pending { note } => Observation::Pending(
                match note {
                    Some(n) => Some(n@),
                    None => None,
                },
            ),
            ProbeResult::Met(r) => Observation::Met(r.summary@, r.detail@),
            ProbeResult::Failed(r) => Observation::Failed(r.summary@, r.detail@),
        }
    }
}

/// A pending result with a note.
pub fn pending(note: Vec<char>) -> (res: ProbeResult)
    ensures
        res@ == Observation::Pending(Some(note@)),
{
    ProbeResult::Pending { note: Some(crate::text::string_of(&note)) }
}

} // verus!
