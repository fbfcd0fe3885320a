//! Waiting for a file to exist, and optionally to match.

use vstd::prelude::*;

use crate::json::{Json, JsonValue};
use crate::pattern::{regex_finds, Pattern};
use crate::probe::{Observation, ProbeResult, Report};
use crate::text::{chars_of, contains_chars, lossy_utf8, occurs_in, push_all, push_string, string_of, utf8_lossy};

verus! {

/// What the file's content must satisfy.
pub enum FileMatcher {
    /// Nothing: the file only has to exist.
    Exists,
    /// The content must contain this string.
    Contains(String),
    /// The content must match this pattern.
    Regex(Pattern),
}

/// A wait on a file.
pub struct FileProbe {
    /// The file's path, as it is displayed.
    pub path: String,
    pub matcher: FileMatcher,
}

/// What one look at the file found.
pub enum FileLook {
    /// The file's metadata: its length in bytes, or `None` when it could
    /// not be read, e.g. because the file does not exist.
    Metadata(Option<u64>),
    /// Reading the content failed because the file does not exist.
    NotFound,
    /// Reading the content failed for another reason.
    ReadError(String),
    /// The file's content.
    Content(Vec<u8>),
}

/// Whether the file's content must be read: only when there is a matcher;
/// bare existence needs no read, so a file that is not UTF-8 still
/// satisfies it.
pub open spec fn reads_content(p: FileProbe) -> bool {
    !(p.matcher is Exists)
}

/// Whether lossily decoded content satisfies a matcher.
pub open spec fn content_matches(matcher: FileMatcher, content: Seq<char>) -> bool {
    match matcher {
        FileMatcher::Exists => true,
        FileMatcher::Contains(s) => occurs_in(content, s@),
        FileMatcher::Regex(re) => regex_finds(re@, content),
    }
}

/// The detail of a met file wait.
pub open spec fn file_detail(path: Seq<char>, bytes: int) -> JsonValue {
    JsonValue::Object(seq![("path"@, JsonValue::Str(path)), ("bytes"@, JsonValue::Int(bytes))])
}

/// What one look at the file says about the wait.
pub open spec fn file_outcome(p: FileProbe, look: FileLook) -> Observation {
    match look {
        FileLook::Metadata(Some(len)) => Observation::Met(p.path@ + " exists"@, file_detail(p.path@, len as int)),
        FileLook::Metadata(None) => Observation::Pending(Some(p.path@ + " does not exist"@)),
        FileLook::NotFound => Observation::Pending(Some(p.path@ + " does not exist"@)),
        FileLook::ReadError(e) => Observation::Pending(Some("read "@ + p.path@ + ": "@ + e@)),
        FileLook::Content(bytes) => if content_matches(p.matcher, utf8_lossy(bytes@)) {
            Observation::Met(p.path@ + " matched"@, file_detail(p.path@, bytes@.len() as int))
        } else {
            Observation::Pending(Some("file exists but does not match yet"@))
        },
    }
}

/// Existence alone: when the file's metadata reads, the wait is met
/// whatever the file's length (an empty file included), reporting the path
/// and that length; when it does not, the wait stays pending as
/// "<path> does not exist".
pub proof fn lemma_existing_file_is_met(p: FileProbe, len: u64)
    ensures
        file_outcome(p, FileLook::Metadata(Some(len))) == Observation::Met(
            p.path@ + " exists"@,
            JsonValue::Object(
                seq![("path"@, JsonValue::Str(p.path@)), ("bytes"@, JsonValue::Int(len as int))],
            ),
        ),
        file_outcome(p, FileLook::Metadata(None)) == Observation::Pending(Some(p.path@ + " does not exist"@)),
        file_outcome(p, FileLook::NotFound) == Observation::Pending(Some(p.path@ + " does not exist"@)),
{
}

/// Content against a matcher: the file's bytes, decoded lossily, meet the
/// wait exactly when they contain the required string or the pattern finds
/// a match in them, reporting the path and the number of bytes; otherwise
/// the wait stays pending. A read error never meets it.
pub proof fn lemma_content_decides(p: FileProbe, bytes: Vec<u8>, e: String)
    ensures
        file_outcome(p, FileLook::Content(bytes)) is Met <==> match p.matcher {
            FileMatcher::Exists => true,
            FileMatcher::Contains(needle) => occurs_in(utf8_lossy(bytes@), needle@),
            FileMatcher::Regex(re) => regex_finds(re@, utf8_lossy(bytes@)),
        },
        file_outcome(p, FileLook::Content(bytes)) is Met ==> file_outcome(p, FileLook::Content(bytes))
            == Observation::Met(
            p.path@ + " matched"@,
            JsonValue::Object(
                seq![("path"@, JsonValue::Str(p.path@)), ("bytes"@, JsonValue::Int(bytes@.len() as int))],
            ),
        ),
        !(file_outcome(p, FileLook::Content(bytes)) is Met) ==> file_outcome(p, FileLook::Content(bytes))
            is Pending,
        file_outcome(p, FileLook::ReadError(e)) is Pending,
{
}

impl FileProbe {
    /// Condition name as it appears in the verdict.
    pub fn name(&self) -> (res: &'static str)
        ensures
            res@ == "file"@,
    {
        "file"
    }

    /// Whether a look at the file must read its content, or only its
    /// metadata.
    pub fn reads_content(&self) -> (res: bool)
        ensures
            res == reads_content(*self),
    {
        match self.matcher {
            FileMatcher::Exists => false,
            _ => true,
        }
    }

    /// Judges one look at the file: metadata when there is no matcher,
    /// otherwise the content or why it could not be read.
    pub fn evaluate(&self, look: FileLook) -> (res: ProbeResult)
        requires
            reads_content(*self) <==> !(look is Metadata),
        ensures
            res@ == file_outcome(*self, look),
    {
        match look {
            FileLook::Metadata(Some(len)) => {
                let mut summary: Vec<char> = Vec::new();
                push_string(&mut summary, &self.path);
                push_all(&mut summary, " exists");
                self.met(summary, len)
            },
            FileLook::Metadata(None) | FileLook::NotFound => {
                let mut note: Vec<char> = Vec::new();
                push_string(&mut note, &self.path);
                push_all(&mut note, " does not exist");
                crate::probe::pending(note)
            },
            FileLook::ReadError(e) => {
                let mut note: Vec<char> = Vec::new();
                push_all(&mut note, "read ");
                push_string(&mut note, &self.path);
                push_all(&mut note, ": ");
                push_string(&mut note, &e);
                crate::probe::pending(note)
            },
            FileLook::Content(bytes) => {
                let content = lossy_utf8(bytes.as_slice());
                let matched = match &self.matcher {
                    FileMatcher::Exists => true,
                    FileMatcher::Contains(s) => {
                        let hay = chars_of(content.as_str());
                        let needle = chars_of(s.as_str());
                        contains_chars(&hay, &needle)
                    },
                    FileMatcher::Regex(re) => re.is_match(content.as_str()),
                };
                if matched {
                    let mut summary: Vec<char> = Vec::new();
                    push_string(&mut summary, &self.path);
                    push_all(&mut summary, " matched");
                    self.met(summary, bytes.len() as u64)
                } else {
                    let mut note: Vec<char> = Vec::new();
                    push_all(&mut note, "file exists but does not match yet");
                    crate::probe::pending(note)
                }
            },
        }
    }

    fn met(&self, summary: Vec<char>, bytes: u64) -> (res: ProbeResult)
        ensures
            res@ == Observation::Met(summary@, file_detail(self.path@, bytes as int)),
    {
        let mut members: Vec<(String, Json)> = Vec::new();
        members.push((String::from_str("path"), Json::Str(self.path.clone())));
        members.push((String::from_str("bytes"), Json::UInt(bytes)));
        proof {
            crate::json::lemma_members_view(members@);
            assert(crate::json::members_view(members@) =~= seq![
                ("path"@, JsonValue::Str(self.path@)),
                ("bytes"@, JsonValue::Int(bytes as int)),
            ]);
        }
        ProbeResult::Met(Report { summary: string_of(&summary), detail: Json::Object(members) })
    }
}

} // verus!
