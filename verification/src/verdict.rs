//! The verdict of a wait: its kind, exit code, and JSON and text renderings.

use vstd::prelude::*;

use crate::engine::EngineOutcome;
use crate::json::{json_text, Json, JsonValue};
use crate::text::{decimal, push_all, push_decimal, push_string, string_of};

verus! {

/// How a wait ended.
#[derive(Clone, Copy, PartialEq, Eq, Debug, Structural)]
pub enum VerdictKind {
    Met,
    Timeout,
    ConditionFailed,
}

/// The name a verdict kind carries in output.
pub open spec fn kind_name(kind: VerdictKind) -> Seq<char> {
    match kind {
        VerdictKind::Met => "met"@,
        VerdictKind::Timeout => "timeout"@,
        VerdictKind::ConditionFailed => "condition_failed"@,
    }
}

/// The process exit code of a verdict kind: 0 met, 1 timeout, 2 condition
/// failed.
pub open spec fn kind_exit_code(kind: VerdictKind) -> i32 {
    match kind {
        VerdictKind::Met => 0,
        VerdictKind::Timeout => 1,
        VerdictKind::ConditionFailed => 2,
    }
}

impl VerdictKind {
    pub fn as_str(self) -> (res: &'static str)
        ensures
            res@ == kind_name(self),
    {
        match self {
            VerdictKind::Met => "met",
            VerdictKind::Timeout => "timeout",
            VerdictKind::ConditionFailed => "condition_failed",
        }
    }
}

/// The one result of a wait.
pub struct Verdict {
    /// Condition type that was awaited, e.g. "http".
    pub condition: &'static str,
    pub kind: VerdictKind,
    pub summary: String,
    /// Nanoseconds spent waiting.
    pub waited: u64,
    pub polls: u32,
    pub detail: Json,
}

/// A verdict is ok exactly when its exit code is 0, and only a met wait
/// is: the JSON field `ok` and the exit code agree.
pub proof fn lemma_ok_iff_exit_zero(v: Verdict)
    ensures
        (verdict_json(v) matches JsonValue::Object(m) && m[1] == ("ok"@, JsonValue::Bool(kind_exit_code(v.kind) == 0))),
        kind_exit_code(v.kind) == 0 <==> v.kind == VerdictKind::Met,
{
}

/// The JSON reports the whole seconds waited: `waited_s` is the number of
/// seconds that have fully passed, so it is at most the time waited and
/// less than a second short of it.
pub proof fn lemma_waited_in_whole_seconds(v: Verdict)
    ensures
        verdict_json(v) matches JsonValue::Object(m) && m[3].0 == "waited_s"@ && (m[3].1 matches JsonValue::Int(
            w,
        ) && w * 1_000_000_000 <= v.waited < (w + 1) * 1_000_000_000),
{
    let w = v.waited as int / 1_000_000_000;
    vstd::arithmetic::div_mod::lemma_fundamental_div_mod(v.waited as int, 1_000_000_000);
}

/// The summary of a timeout.
pub open spec fn timeout_summary(last_note: Option<String>) -> Seq<char> {
    match last_note {
        Some(note) => "timed out (last: "@ + note@ + ")"@,
        None => "timed out"@,
    }
}

/// The detail of a timeout: the last note, or null.
pub open spec fn timeout_detail(last_note: Option<String>) -> JsonValue {
    JsonValue::Object(
        seq![
            ("last_note"@, match last_note {
                Some(note) => JsonValue::Str(note@),
                None => JsonValue::Null,
            }),
        ],
    )
}

/// The JSON form of a verdict.
pub open spec fn verdict_json(v: Verdict) -> JsonValue {
    JsonValue::Object(
        seq![
            ("condition"@, JsonValue::Str(v.condition@)),
            ("ok"@, JsonValue::Bool(v.kind == VerdictKind::Met)),
            ("kind"@, JsonValue::Str(kind_name(v.kind))),
            ("waited_s"@, JsonValue::Int(v.waited as int / 1_000_000_000)),
            ("polls"@, JsonValue::Int(v.polls as int)),
            ("detail"@, v.detail@),
        ],
    )
}

/// One part of a `humantime` duration: the value and its unit, with an `s`
/// after a plural unit when the value is above one; nothing when the value
/// is zero.
pub open spec fn duration_part(value: u64, unit: Seq<char>, plural: bool) -> Seq<Seq<char>> {
    if value > 0 {
        seq![decimal(value as nat) + unit + if plural && value > 1 {
            "s"@
        } else {
            Seq::empty()
        }]
    } else {
        Seq::empty()
    }
}

/// How long a wait took, in the words of `humantime::format_duration`
/// applied to a whole number of seconds (e.g. "4m 12s"): years of 365.25
/// days, months of 30.44 days, days, hours, minutes and seconds, each that
/// is not zero, separated by spaces; "0s" for zero.
pub open spec fn humantime_text(secs: u64) -> Seq<char> {
    if secs == 0 {
        "0s"@
    } else {
        let ydays = secs % 31_557_600;
        let mdays = ydays % 2_630_016;
        let day_secs = mdays % 86400;
        crate::text::joined(
            duration_part(secs / 31_557_600, "year"@, true) + duration_part(ydays / 2_630_016, "month"@, true)
                + duration_part(mdays / 86400, "day"@, true) + duration_part(day_secs / 3600, "h"@, false)
                + duration_part(day_secs % 3600 / 60, "m"@, false) + duration_part(day_secs % 60, "s"@, false),
            ' ',
        )
    }
}

/// Formats a whole number of seconds as `humantime` does.
///
/// Trusted: `humantime::format_duration` on `Duration::from_secs(secs)`,
/// written out with `Display`, which splits the seconds into the parts
/// [`humantime_text`] lists.
#[verifier::external_body]
fn format_seconds(secs: u64) -> (res: String)
    ensures
        res@ == humantime_text(secs),
{
    humantime::format_duration(std::time::Duration::from_secs(secs)).to_string()
}

/// The digest a detail carries: the string member `digest`, if any.
pub open spec fn detail_digest(detail: Json) -> Option<Seq<char>> {
    match crate::json::spec_member(detail, "digest"@) {
        Some(Json::Str(s)) => Some(s@),
        _ => None,
    }
}

/// The one-line text form of a verdict, followed by the digest lines when
/// the detail carries a digest.
pub open spec fn verdict_text(v: Verdict) -> Seq<char> {
    let mark = if v.kind == VerdictKind::Met {
        "ok"@
    } else {
        kind_name(v.kind)
    };
    let line = mark + ": "@ + v.summary@ + " (waited "@ + humantime_text(v.waited / 1_000_000_000) + ", "@
        + decimal(v.polls as nat) + " polls)"@;
    match detail_digest(v.detail) {
        Some(digest) => line + seq!['\n'] + digest,
        None => line,
    }
}

impl Verdict {
    /// The verdict for the outcome of a wait on `condition`.
    pub fn from_outcome(condition: &'static str, outcome: EngineOutcome) -> (res: Verdict)
        ensures
            res.condition == condition,
            match outcome {
                EngineOutcome::Met { report, waited, polls } => res.kind == VerdictKind::Met
                    && res.summary == report.summary && res.detail == report.detail && res.waited
                    == waited && res.polls == polls,
                EngineOutcome::Failed { report, waited, polls } => res.kind
                    == VerdictKind::ConditionFailed && res.summary == report.summary && res.detail
                    == report.detail && res.waited == waited && res.polls == polls,
                EngineOutcome::Timeout { last_note, waited, polls } => res.kind
                    == VerdictKind::Timeout && res.summary@ == timeout_summary(last_note)
                    && res.detail@ == timeout_detail(last_note) && res.waited == waited
                    && res.polls == polls,
            },
    {
        match outcome {
            EngineOutcome::Met { report, waited, polls } => Verdict {
                condition,
                kind: VerdictKind::Met,
                summary: report.summary,
                waited,
                polls,
                detail: report.detail,
            },
            EngineOutcome::Failed { report, waited, polls } => Verdict {
                condition,
                kind: VerdictKind::ConditionFailed,
                summary: report.summary,
                waited,
                polls,
                detail: report.detail,
            },
            EngineOutcome::Timeout { last_note, waited, polls } => {
                let mut summary: Vec<char> = Vec::new();
                let note_value = match &last_note {
                    Some(note) => {
                        push_all(&mut summary, "timed out (last: ");
                        push_string(&mut summary, note);
                        push_all(&mut summary, ")");
                        Json::Str(note.clone())
                    },
                    None => {
                        push_all(&mut summary, "timed out");
                        Json::Null
                    },
                };
                let mut members: Vec<(String, Json)> = Vec::new();
                members.push((String::from_str("last_note"), note_value));
                let detail = Json::Object(members);
                proof {
                    let mv = crate::json::members_view(members@);
                    crate::json::lemma_members_view_index(members@, 0);
                    assert(mv =~= seq![(members@[0].0@, members@[0].1@)]);
                }
                Verdict {
                    condition,
                    kind: VerdictKind::Timeout,
                    summary: string_of(&summary),
                    waited,
                    polls,
                    detail,
                }
            },
        }
    }

    /// The process exit code: 0 met, 1 timeout, 2 condition failed.
    pub fn exit_code(&self) -> (res: i32)
        ensures
            res == kind_exit_code(self.kind),
    {
        match self.kind {
            VerdictKind::Met => 0,
            VerdictKind::Timeout => 1,
            VerdictKind::ConditionFailed => 2,
        }
    }

    /// The verdict as one line of compact JSON.
    pub fn render_json(&self) -> (res: String)
        ensures
            res@ == json_text(verdict_json(*self)),
    {
        let mut members: Vec<(String, Json)> = Vec::new();
        members.push((String::from_str("condition"), Json::Str(String::from_str(self.condition))));
        members.push((String::from_str("ok"), Json::Bool(self.kind == VerdictKind::Met)));
        members.push((String::from_str("kind"), Json::Str(String::from_str(self.kind.as_str()))));
        members.push((String::from_str("waited_s"), Json::UInt(self.waited / 1_000_000_000)));
        members.push((String::from_str("polls"), Json::UInt(self.polls as u64)));
        members.push((String::from_str("detail"), self.detail.duplicate()));
        let doc = Json::Object(members);
        proof {
            let ms = members@;
            crate::json::lemma_members_view_len(ms);
            assert forall|i: int| 0 <= i < 6 implies #[trigger] crate::json::members_view(ms)[i]
                == (ms[i].0@, ms[i].1@) by {
                crate::json::lemma_members_view_index(ms, i);
            }
            assert(crate::json::members_view(ms) =~= match verdict_json(*self) {
                JsonValue::Object(m) => m,
                _ => Seq::empty(),
            });
        }
        doc.to_text()
    }

    /// The verdict as text: one line, then the failure digest if there is one.
    pub fn render_text(&self) -> (res: String)
        ensures
            res@ == verdict_text(*self),
    {
        let mut out: Vec<char> = Vec::new();
        if self.kind == VerdictKind::Met {
            push_all(&mut out, "ok");
        } else {
            push_all(&mut out, self.kind.as_str());
        }
        push_all(&mut out, ": ");
        push_string(&mut out, &self.summary);
        push_all(&mut out, " (waited ");
        let waited = format_seconds(self.waited / 1_000_000_000);
        push_string(&mut out, &waited);
        push_all(&mut out, ", ");
        push_decimal(&mut out, self.polls as u64);
        push_all(&mut out, " polls)");
        match self.detail.get("digest") {
            Some(Json::Str(digest)) => {
                out.push('\n');
                push_string(&mut out, digest);
            },
            _ => {},
        }
        string_of(&out)
    }
}

} // verus!
