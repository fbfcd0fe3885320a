//! Waiting for an HTTP endpoint to answer with the right status and body.

use vstd::prelude::*;

use crate::json::{spec_member, Json, JsonValue};
use crate::probe::{Observation, ProbeResult, Report};
use crate::text::{
    chars_of, contains_chars, decimal, joined, occurs_in, push_all, push_decimal, push_seq,
    push_signed, push_string, same_chars, signed_decimal, split_at_char, split_once,
    split_once_spec, string_of, string_views, trim_chars, trimmed,
};

verus! {

/// A requirement that a field of a JSON body equals a value.
pub struct JsonPathCheck {
    /// Object keys and array indices, outermost first.
    pub path: Vec<String>,
    /// The expected value, as text.
    pub expected: String,
}

/// The check that `<dot.path>=<value>` describes, or the usage error.
pub open spec fn json_path_spec(spec: Seq<char>) -> Result<(Seq<Seq<char>>, Seq<char>), Seq<char>> {
    match split_once_spec(spec, '=') {
        None => Err("--json-path '"@ + spec + "' must be <dot.path>=<value>"@),
        Some((path, expected)) => if path.len() == 0 {
            Err("--json-path '"@ + spec + "' has an empty path"@)
        } else {
            Ok((crate::text::pieces(path, '.'), expected))
        },
    }
}

/// A `--json-path` loses nothing: joining the path of the check it
/// describes with dots, then `=` and the expected value, gives back the
/// argument.
pub proof fn lemma_json_path_round_trip(spec: Seq<char>)
    ensures
        json_path_spec(spec) matches Ok((path, expected)) ==> crate::text::joined(path, '.')
            + seq!['='] + expected == spec,
{
    crate::text::lemma_first_index_of(spec, '=');
    if let Some(i) = crate::text::first_index_of(spec, '=') {
        let path = spec.take(i);
        crate::text::lemma_join_pieces(path, '.');
        assert(path + seq!['='] + spec.skip(i + 1) =~= spec);
    }
}

fn strings_of(v: Vec<Vec<char>>) -> (res: Vec<String>)
    ensures
        string_views(res@) == crate::text::line_views(v@),
{
    let mut out: Vec<String> = Vec::new();
    let n = v.len();
    for i in 0..n
        invariant
            n == v@.len(),
            string_views(out@) == crate::text::line_views(v@).take(i as int),
    {
        let ghost before = string_views(out@);
        let item = string_of(&v[i]);
        out.push(item);
        assert(string_views(out@) =~= before.push(v@[i as int]@));
        assert(string_views(out@) =~= crate::text::line_views(v@).take(i + 1));
    }
    assert(crate::text::line_views(v@).take(n as int) =~= crate::text::line_views(v@));
    out
}

/// Parses "a.b.0.c=val" into path segments and expected value.
pub fn parse_json_path(spec: &str) -> (res: Result<JsonPathCheck, String>)
    ensures
        match res {
            Ok(check) => json_path_spec(spec@) == Ok::<(Seq<Seq<char>>, Seq<char>), Seq<char>>(
                (string_views(check.path@), check.expected@),
            ),
            Err(msg) => json_path_spec(spec@) == Err::<(Seq<Seq<char>>, Seq<char>), Seq<char>>(
                msg@,
            ),
        },
{
    let chars = chars_of(spec);
    match split_once(&chars, '=') {
        None => {
            let mut msg: Vec<char> = Vec::new();
            push_all(&mut msg, "--json-path '");
            push_all(&mut msg, spec);
            push_all(&mut msg, "' must be <dot.path>=<value>");
            Err(string_of(&msg))
        },
        Some((path, expected)) => {
            if path.len() == 0 {
                let mut msg: Vec<char> = Vec::new();
                push_all(&mut msg, "--json-path '");
                push_all(&mut msg, spec);
                push_all(&mut msg, "' has an empty path");
                Err(string_of(&msg))
            } else {
                let segments = split_at_char(&path, '.');
                Ok(JsonPathCheck { path: strings_of(segments), expected: string_of(&expected) })
            }
        },
    }
}

/// Whether `c` is an ASCII decimal digit.
pub open spec fn is_digit_char(c: char) -> bool {
    '0' <= c <= '9'
}

/// Whether every character of `d` is an ASCII decimal digit.
pub open spec fn all_digit_chars(d: Seq<char>) -> bool {
    forall|i: int| 0 <= i < d.len() ==> is_digit_char(#[trigger] d[i])
}

/// The value of a run of decimal digits.
pub open spec fn digit_chars_value(d: Seq<char>) -> int
    decreases d.len(),
{
    if d.len() == 0 {
        0
    } else {
        digit_chars_value(d.drop_last()) * 10 + (d.last() as int - 48)
    }
}

/// What `usize::from_str` gives: an optional `+` followed by at least one
/// decimal digit, with a value that fits `usize`.
pub open spec fn parse_index(seg: Seq<char>) -> Option<int> {
    let digits = if seg.len() > 0 && seg[0] == '+' {
        seg.drop_first()
    } else {
        seg
    };
    if digits.len() > 0 && all_digit_chars(digits) && digit_chars_value(digits) <= usize::MAX {
        Some(digit_chars_value(digits))
    } else {
        None
    }
}

proof fn lemma_digit_chars_nonneg(d: Seq<char>)
    requires
        forall|i: int| 0 <= i < d.len() ==> is_digit_char(#[trigger] d[i]),
    ensures
        digit_chars_value(d) >= 0,
    decreases d.len(),
{
    if d.len() > 0 {
        lemma_digit_chars_nonneg(d.drop_last());
    }
}

proof fn lemma_digit_chars_grow(d: Seq<char>, i: int)
    requires
        0 <= i <= d.len(),
        forall|j: int| 0 <= j < d.len() ==> is_digit_char(#[trigger] d[j]),
    ensures
        digit_chars_value(d.take(i)) <= digit_chars_value(d),
    decreases d.len() - i,
{
    if i < d.len() {
        lemma_digit_chars_grow(d, i + 1);
        assert(d.take(i + 1).drop_last() == d.take(i));
        lemma_digit_chars_nonneg(d.take(i));
    } else {
        assert(d.take(i) == d);
    }
}

/// Reads an array index as `usize::from_str` would.
fn index_of_segment(seg: &[char]) -> (res: Option<usize>)
    ensures
        match res {
            Some(i) => parse_index(seg@) == Some(i as int),
            None => parse_index(seg@) is None,
        },
{
    let n = seg.len();
    let start: usize = if n > 0 && seg[0] == '+' {
        1
    } else {
        0
    };
    let ghost digits = if seg@.len() > 0 && seg@[0] == '+' {
        seg@.drop_first()
    } else {
        seg@
    };
    assert(digits == seg@.subrange(start as int, n as int));
    if start == n {
        return None;
    }
    let mut value: u128 = 0;
    let mut i = start;
    while i < n
        invariant
            n == seg@.len(),
            start < n,
            start <= i <= n,
            digits == seg@.subrange(start as int, n as int),
            digits == (if seg@.len() > 0 && seg@[0] == '+' {
                seg@.drop_first()
            } else {
                seg@
            }),
            forall|j: int| start <= j < i ==> is_digit_char(#[trigger] seg@[j]),
            value == digit_chars_value(seg@.subrange(start as int, i as int)),
            value <= usize::MAX,
        decreases n - i,
    {
        let c = seg[i];
        if c < '0' || c > '9' {
            assert(digits[i - start] == c);
            assert(!is_digit_char(digits[i - start]));
            return None;
        }
        let ghost prefix = seg@.subrange(start as int, i + 1);
        assert(prefix.drop_last() == seg@.subrange(start as int, i as int));
        let d = (c as u32 - 48) as u128;
        value = value * 10 + d;
        assert(prefix.last() == c);
        assert(value == digit_chars_value(prefix));
        i += 1;
        if value > usize::MAX as u128 {
            proof {
                assert forall|j: int| 0 <= j < prefix.len() implies is_digit_char(#[trigger] prefix[j]) by {
                    assert(prefix[j] == seg@[start + j]);
                }
                if forall|j: int| 0 <= j < digits.len() ==> is_digit_char(#[trigger] digits[j]) {
                    assert(digits.take(prefix.len() as int) == prefix);
                    lemma_digit_chars_grow(digits, prefix.len() as int);
                }
            }
            return None;
        }
    }
    assert(seg@.subrange(start as int, n as int) == digits);
    assert forall|j: int| 0 <= j < digits.len() implies is_digit_char(#[trigger] digits[j]) by {
        assert(digits[j] == seg@[start + j]);
    }
    Some(value as usize)
}

/// The child of `v` that path segment `seg` selects: a member of an object,
/// or an item of an array when `seg` reads as an index.
pub open spec fn child_spec(v: Json, seg: Seq<char>) -> Option<Json> {
    match v {
        Json::Object(_) => spec_member(v, seg),
        Json::Array(items) => match parse_index(seg) {
            Some(i) => if i < items@.len() {
                Some(items@[i])
            } else {
                None
            },
            None => None,
        },
        _ => None,
    }
}

/// The value at `path` inside `v`.
pub open spec fn lookup_spec(v: Json, path: Seq<Seq<char>>) -> Option<Json>
    decreases path.len(),
{
    if path.len() == 0 {
        Some(v)
    } else {
        match child_spec(v, path[0]) {
            Some(c) => lookup_spec(c, path.drop_first()),
            None => None,
        }
    }
}

fn child<'v>(v: &'v Json, seg: &String) -> (res: Option<&'v Json>)
    ensures
        match res {
            Some(c) => child_spec(*v, seg@) == Some(*c),
            None => child_spec(*v, seg@) is None,
        },
{
    match v {
        Json::Object(_) => v.get(seg.as_str()),
        Json::Array(items) => {
            let chars = chars_of(seg.as_str());
            match index_of_segment(&chars) {
                Some(i) => if i < items.len() {
                    Some(&items[i])
                } else {
                    None
                },
                None => None,
            }
        },
        _ => None,
    }
}

/// Follows `path` from `value`.
pub fn lookup<'v>(value: &'v Json, path: &Vec<String>) -> (res: Option<&'v Json>)
    ensures
        match res {
            Some(c) => lookup_spec(*value, string_views(path@)) == Some(*c),
            None => lookup_spec(*value, string_views(path@)) is None,
        },
{
    let mut current = value;
    let n = path.len();
    assert(string_views(path@).skip(0) == string_views(path@));
    for i in 0..n
        invariant
            n == path@.len(),
            lookup_spec(*value, string_views(path@)) == lookup_spec(
                *current,
                string_views(path@).skip(i as int),
            ),
    {
        let ghost rest = string_views(path@).skip(i as int);
        assert(rest[0] == path@[i as int]@);
        assert(rest.drop_first() == string_views(path@).skip(i + 1));
        match child(current, &path[i]) {
            Some(c) => {
                current = c;
            },
            None => {
                return None;
            },
        }
    }
    assert(string_views(path@).skip(n as int).len() == 0);
    Some(current)
}

/// The text a scalar JSON value compares by: a string as itself, a number
/// in its JSON spelling, `true`, `false` or `null`. Arrays and objects have
/// none.
pub open spec fn scalar_text(v: Json) -> Option<Seq<char>> {
    match v {
        Json::Str(s) => Some(s@),
        Json::UInt(n) => Some(decimal(n as nat)),
        Json::Int(i) => Some(signed_decimal(i as int)),
        Json::Float(t) => Some(t@),
        Json::Bool(b) => Some(
            if b {
                "true"@
            } else {
                "false"@
            },
        ),
        Json::Null => Some("null"@),
        _ => None,
    }
}

/// Whether a JSON value equals the expected text.
pub fn value_matches(value: &Json, expected: &str) -> (res: bool)
    ensures
        res == (scalar_text(*value) == Some(expected@)),
{
    let mut text: Vec<char> = Vec::new();
    match value {
        Json::Str(s) => push_string(&mut text, s),
        Json::UInt(n) => push_decimal(&mut text, *n),
        Json::Int(i) => push_signed(&mut text, *i),
        Json::Float(t) => push_string(&mut text, t),
        Json::Bool(b) => if *b {
            push_all(&mut text, "true")
        } else {
            push_all(&mut text, "false")
        },
        Json::Null => push_all(&mut text, "null"),
        _ => return false,
    }
    let want = chars_of(expected);
    same_chars(&text, &want)
}

/// A wait on an HTTP endpoint.
pub struct HttpProbe {
    pub url: String,
    /// Require this exact status code (default: any 2xx).
    pub status: Option<u16>,
    /// Require the body to contain each of these strings.
    pub contains: Vec<String>,
    /// Require each of these JSON body fields to equal a value.
    pub json_paths: Vec<JsonPathCheck>,
    /// Extra request headers.
    pub headers: Vec<(String, String)>,
    /// Nanoseconds a request may take.
    pub request_timeout: u64,
}

/// What one GET request to the endpoint gave.
pub enum HttpReply {
    /// A response with a status and a body; error statuses count.
    Response { status: u16, body: String },
    /// The response came but its body could not be read.
    BodyError(String),
    /// No response: the request failed.
    RequestError(String),
}

/// Whether a status passes: the exact one required, else any 2xx.
pub open spec fn status_ok(required: Option<u16>, status: u16) -> bool {
    match required {
        Some(s) => status == s,
        None => 200 <= status < 300,
    }
}

/// The first of `needles` that `body` does not contain.
pub open spec fn first_missing(body: Seq<char>, needles: Seq<Seq<char>>) -> Option<Seq<char>>
    decreases needles.len(),
{
    if needles.len() == 0 {
        None
    } else if !occurs_in(body, needles[0]) {
        Some(needles[0])
    } else {
        first_missing(body, needles.drop_first())
    }
}

/// Whether the value at the check's path equals its expected value.
pub open spec fn check_passes(body: Json, check: JsonPathCheck) -> bool {
    match lookup_spec(body, string_views(check.path@)) {
        Some(v) => scalar_text(v) == Some(check.expected@),
        None => false,
    }
}

/// The first of `checks` that `body` fails.
pub open spec fn first_failing(body: Json, checks: Seq<JsonPathCheck>) -> Option<JsonPathCheck>
    decreases checks.len(),
{
    if checks.len() == 0 {
        None
    } else if !check_passes(body, checks[0]) {
        Some(checks[0])
    } else {
        first_failing(body, checks.drop_first())
    }
}

/// What one request says about the wait. `parsed` is the body parsed as
/// JSON, or why it did not parse; it is consulted only when the probe has
/// JSON path checks.
pub open spec fn http_outcome(p: HttpProbe, reply: HttpReply, parsed: Result<Json, String>) -> Observation {
    match reply {
        HttpReply::RequestError(e) => Observation::Pending(Some("request: "@ + e@)),
        HttpReply::BodyError(e) => Observation::Pending(Some("read body: "@ + e@)),
        HttpReply::Response { status, body } => if !status_ok(p.status, status) {
            Observation::Pending(Some("status "@ + decimal(status as nat)))
        } else {
            match first_missing(body@, string_views(p.contains@)) {
                Some(needle) => Observation::Pending(
                    Some("body does not contain '"@ + needle + "'"@),
                ),
                None => {
                    let met = Observation::Met(
                        p.url@ + " returned "@ + decimal(status as nat) + " and matched"@,
                        JsonValue::Object(
                            seq![("url"@, JsonValue::Str(p.url@)), ("status"@, JsonValue::Int(status as int))],
                        ),
                    );
                    if p.json_paths@.len() == 0 {
                        met
                    } else {
                        match parsed {
                            Err(e) => Observation::Pending(Some("body is not JSON: "@ + e@)),
                            Ok(v) => match first_failing(v, p.json_paths@) {
                                Some(check) => Observation::Pending(
                                    Some(
                                        "json path "@ + joined(string_views(check.path@), '.')
                                            + " != "@ + check.expected@,
                                    ),
                                ),
                                None => met,
                            },
                        }
                    }
                },
            }
        },
    }
}

proof fn lemma_first_missing(body: Seq<char>, needles: Seq<Seq<char>>)
    ensures
        first_missing(body, needles) is None <==> forall|i: int|
            0 <= i < needles.len() ==> occurs_in(body, #[trigger] needles[i]),
    decreases needles.len(),
{
    if needles.len() > 0 {
        lemma_first_missing(body, needles.drop_first());
        if first_missing(body, needles) is None {
            assert forall|i: int| 0 <= i < needles.len() implies occurs_in(body, #[trigger] needles[i]) by {
                if i > 0 {
                    assert(needles[i] == needles.drop_first()[i - 1]);
                }
            }
        } else if occurs_in(body, needles[0]) {
            let j = choose|j: int|
                0 <= j < needles.drop_first().len() && !occurs_in(body, #[trigger] needles.drop_first()[j]);
            assert(needles.drop_first()[j] == needles[j + 1]);
        }
    }
}

proof fn lemma_first_failing(v: Json, checks: Seq<JsonPathCheck>)
    ensures
        first_failing(v, checks) is None <==> forall|i: int|
            0 <= i < checks.len() ==> check_passes(v, #[trigger] checks[i]),
    decreases checks.len(),
{
    if checks.len() > 0 {
        lemma_first_failing(v, checks.drop_first());
        if first_failing(v, checks) is None {
            assert forall|i: int| 0 <= i < checks.len() implies check_passes(v, #[trigger] checks[i]) by {
                if i > 0 {
                    assert(checks[i] == checks.drop_first()[i - 1]);
                }
            }
        } else if check_passes(v, checks[0]) {
            let j = choose|j: int|
                0 <= j < checks.drop_first().len() && !check_passes(v, #[trigger] checks.drop_first()[j]);
            assert(checks.drop_first()[j] == checks[j + 1]);
        }
    }
}

/// Whether `parsed` is JSON in which each check's path leads to a scalar
/// whose text is the check's expected value.
pub open spec fn paths_hold(parsed: Result<Json, String>, checks: Seq<JsonPathCheck>) -> bool {
    match parsed {
        Ok(v) => forall|i: int|
            0 <= i < checks.len() ==> match lookup_spec(v, string_views((#[trigger] checks[i]).path@)) {
                Some(x) => scalar_text(x) == Some(checks[i].expected@),
                None => false,
            },
        Err(_) => false,
    }
}

/// The status comes first: without a required status only a 2xx response
/// can meet the wait, with one only that exact status can; any other status
/// leaves the wait pending as "status <status>", whatever the body.
pub proof fn lemma_status_gate(p: HttpProbe, status: u16, body: String, parsed: Result<Json, String>)
    ensures
        http_outcome(p, HttpReply::Response { status, body }, parsed) is Met ==> match p.status {
            Some(required) => status == required,
            None => status >= 200 && status <= 299,
        },
        (match p.status {
            Some(required) => status != required,
            None => status < 200 || status > 299,
        }) ==> http_outcome(p, HttpReply::Response { status, body }, parsed) == Observation::Pending(
            Some("status "@ + decimal(status as nat)),
        ),
{
}

/// A response meets the wait exactly when its status passes (the required
/// one, else any 2xx), the body contains every required string, and, when
/// there are JSON path checks, the body is JSON in which each path leads to
/// a scalar whose text is the expected value. A met wait reports the url
/// and the status. Anything else leaves it pending; a failed request never
/// meets it.
pub proof fn lemma_when_http_is_met(p: HttpProbe, reply: HttpReply, parsed: Result<Json, String>)
    ensures
        !(reply is Response) ==> http_outcome(p, reply, parsed) is Pending,
        reply matches HttpReply::Response { status, body } ==> {
            &&& (http_outcome(p, reply, parsed) is Met <==> {
                &&& match p.status {
                    Some(required) => status == required,
                    None => status >= 200 && status <= 299,
                }
                &&& forall|i: int|
                    0 <= i < p.contains@.len() ==> occurs_in(body@, (#[trigger] p.contains@[i])@)
                &&& p.json_paths@.len() > 0 ==> paths_hold(parsed, p.json_paths@)
            })
            &&& http_outcome(p, reply, parsed) is Met ==> http_outcome(p, reply, parsed) == Observation::Met(
                p.url@ + " returned "@ + decimal(status as nat) + " and matched"@,
                JsonValue::Object(
                    seq![("url"@, JsonValue::Str(p.url@)), ("status"@, JsonValue::Int(status as int))],
                ),
            )
            &&& !(http_outcome(p, reply, parsed) is Met) ==> http_outcome(p, reply, parsed) is Pending
        },
{
    if let HttpReply::Response { status, body } = reply {
        let needles = string_views(p.contains@);
        lemma_first_missing(body@, needles);
        assert((forall|i: int| 0 <= i < needles.len() ==> occurs_in(body@, #[trigger] needles[i])) <==> (forall|i: int|
            0 <= i < p.contains@.len() ==> occurs_in(body@, (#[trigger] p.contains@[i])@))) by {
            assert forall|i: int| 0 <= i < p.contains@.len() implies needles[i] == (#[trigger] p.contains@[i])@ by {}
        }
        if let Ok(v) = parsed {
            lemma_first_failing(v, p.json_paths@);
        }
    }
}

impl HttpProbe {
    /// Condition name as it appears in the verdict.
    pub fn name(&self) -> (res: &'static str)
        ensures
            res@ == "http"@,
    {
        "http"
    }

    /// Judges one request: the status first, then the required substrings,
    /// then the JSON path checks; the first miss makes the result pending
    /// with a note saying what missed.
    pub fn evaluate(&self, reply: HttpReply, parsed: Result<Json, String>) -> (res: ProbeResult)
        ensures
            res@ == http_outcome(*self, reply, parsed),
    {
        let (status, body) = match reply {
            HttpReply::RequestError(e) => {
                let mut note: Vec<char> = Vec::new();
                push_all(&mut note, "request: ");
                push_string(&mut note, &e);
                return crate::probe::pending(note);
            },
            HttpReply::BodyError(e) => {
                let mut note: Vec<char> = Vec::new();
                push_all(&mut note, "read body: ");
                push_string(&mut note, &e);
                return crate::probe::pending(note);
            },
            HttpReply::Response { status, body } => (status, body),
        };
        let ok = match self.status {
            Some(required) => status == required,
            None => 200 <= status && status < 300,
        };
        if !ok {
            let mut note: Vec<char> = Vec::new();
            push_all(&mut note, "status ");
            push_decimal(&mut note, status as u64);
            return crate::probe::pending(note);
        }
        let body_chars = chars_of(body.as_str());
        let n = self.contains.len();
        assert(string_views(self.contains@).skip(0) == string_views(self.contains@));
        for i in 0..n
            invariant
                n == self.contains@.len(),
                body_chars@ == body@,
                reply == (HttpReply::Response { status, body }),
                status_ok(self.status, status),
                first_missing(body@, string_views(self.contains@)) == first_missing(
                    body@,
                    string_views(self.contains@).skip(i as int),
                ),
        {
            let ghost rest = string_views(self.contains@).skip(i as int);
            assert(rest[0] == self.contains@[i as int]@);
            assert(rest.drop_first() == string_views(self.contains@).skip(i + 1));
            let needle = chars_of(self.contains[i].as_str());
            if !contains_chars(&body_chars, &needle) {
                assert(first_missing(body@, rest) == Some(needle@));
                let mut note: Vec<char> = Vec::new();
                push_all(&mut note, "body does not contain '");
                push_seq(&mut note, &needle);
                push_all(&mut note, "'");
                return crate::probe::pending(note);
            }
        }
        assert(string_views(self.contains@).skip(n as int).len() == 0);
        if self.json_paths.len() > 0 {
            let doc = match &parsed {
                Err(e) => {
                    let mut note: Vec<char> = Vec::new();
                    push_all(&mut note, "body is not JSON: ");
                    push_string(&mut note, e);
                    return crate::probe::pending(note);
                },
                Ok(v) => v,
            };
            let m = self.json_paths.len();
            assert(self.json_paths@.skip(0) == self.json_paths@);
            for i in 0..m
                invariant
                    m == self.json_paths@.len(),
                    m > 0,
                    parsed == Ok::<Json, String>(*doc),
                    reply == (HttpReply::Response { status, body }),
                    status_ok(self.status, status),
                    first_missing(body@, string_views(self.contains@)) is None,
                    first_failing(*doc, self.json_paths@) == first_failing(
                        *doc,
                        self.json_paths@.skip(i as int),
                    ),
            {
                let ghost rest = self.json_paths@.skip(i as int);
                assert(rest[0] == self.json_paths@[i as int]);
                assert(rest.drop_first() == self.json_paths@.skip(i + 1));
                let check = &self.json_paths[i];
                let matched = match lookup(doc, &check.path) {
                    Some(v) => value_matches(v, check.expected.as_str()),
                    None => false,
                };
                if !matched {
                    assert(!check_passes(*doc, *check));
                    assert(first_failing(*doc, rest) == Some(*check));
                    let mut note: Vec<char> = Vec::new();
                    push_all(&mut note, "json path ");
                    let joined_path = crate::text::join_strings(&check.path, '.');
                    push_seq(&mut note, &joined_path);
                    push_all(&mut note, " != ");
                    push_string(&mut note, &check.expected);
                    return crate::probe::pending(note);
                }
            }
            assert(self.json_paths@.skip(m as int).len() == 0);
        }
        let mut summary: Vec<char> = Vec::new();
        push_string(&mut summary, &self.url);
        push_all(&mut summary, " returned ");
        push_decimal(&mut summary, status as u64);
        push_all(&mut summary, " and matched");
        let mut members: Vec<(String, Json)> = Vec::new();
        members.push((String::from_str("url"), Json::Str(self.url.clone())));
        members.push((String::from_str("status"), Json::UInt(status as u64)));
        proof {
            crate::json::lemma_members_view(members@);
            assert(crate::json::members_view(members@) =~= seq![
                ("url"@, JsonValue::Str(self.url@)),
                ("status"@, JsonValue::Int(status as int)),
            ]);
        }
        ProbeResult::Met(Report { summary: string_of(&summary), detail: Json::Object(members) })
    }
}

/// The header that `Name: value` describes, trimmed, or the usage error.
#[verifier::opaque]
pub open spec fn header_spec(h: Seq<char>) -> Result<(Seq<char>, Seq<char>), Seq<char>> {
    match split_once_spec(h, ':') {
        Some((name, value)) => Ok((trimmed(name), trimmed(value))),
        None => Err("--header '"@ + h + "' must be 'Name: value'"@),
    }
}

/// Parses an extra request header given as `Name: value`.
pub fn parse_header(h: &str) -> (res: Result<(String, String), String>)
    ensures
        match res {
            Ok((name, value)) => header_spec(h@) == Ok::<(Seq<char>, Seq<char>), Seq<char>>(
                (name@, value@),
            ),
            Err(msg) => header_spec(h@) == Err::<(Seq<char>, Seq<char>), Seq<char>>(msg@),
        },
{
    reveal(header_spec);
    let chars = chars_of(h);
    match split_once(&chars, ':') {
        Some((name, value)) => {
            let name = trim_chars(&name);
            let value = trim_chars(&value);
            Ok((string_of(&name), string_of(&value)))
        },
        None => {
            let mut msg: Vec<char> = Vec::new();
            push_all(&mut msg, "--header '");
            push_all(&mut msg, h);
            push_all(&mut msg, "' must be 'Name: value'");
            Err(string_of(&msg))
        },
    }
}

} // verus!
