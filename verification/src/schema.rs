//! The machine-readable contract of the command (clispec v0.2), printed by
//! `tarry schema`.

use vstd::prelude::*;

use crate::json::{items_view, members_view, Json, JsonValue};

verus! {

/// The version of the command, as the contract reports it.
pub const VERSION: &'static str = "0.1.3";

/// An object member holding a string.
pub open spec fn str_member(key: Seq<char>, value: Seq<char>) -> (Seq<char>, JsonValue) {
    (key, JsonValue::Str(value))
}

/// A described value: its name, its type and what it means.
pub open spec fn field_value(name: Seq<char>, ty: Seq<char>, description: Seq<char>) -> JsonValue {
    JsonValue::Object(
        seq![
            str_member("name"@, name),
            str_member("type"@, ty),
            str_member("description"@, description),
        ],
    )
}

/// A described value that takes one of a few names.
pub open spec fn choice_field_value(
    name: Seq<char>,
    ty: Seq<char>,
    choices: Seq<JsonValue>,
    description: Seq<char>,
) -> JsonValue {
    JsonValue::Object(
        seq![
            str_member("name"@, name),
            str_member("type"@, ty),
            ("enum"@, JsonValue::Array(choices)),
            str_member("description"@, description),
        ],
    )
}

/// The fields of a verdict, as the contract lists them.
pub open spec fn verdict_fields_value() -> Seq<JsonValue> {
    seq![
        field_value("condition"@, "string"@, "Condition type that was awaited"@),
        field_value("ok"@, "boolean"@, "True when the condition was met"@),
        choice_field_value(
            "kind"@,
            "string"@,
            seq![
                JsonValue::Str("met"@),
                JsonValue::Str("timeout"@),
                JsonValue::Str("condition_failed"@),
            ],
            "Outcome kind"@,
        ),
        field_value("waited_s"@, "integer"@, "Seconds spent waiting"@),
        field_value("polls"@, "integer"@, "Number of polls performed"@),
        field_value(
            "detail"@,
            "object"@,
            "Condition-specific detail; failure digests are bounded to 20 log lines and set detail.truncated=true when clipped"@,
        ),
    ]
}

/// An argument of a command.
pub open spec fn arg_value(name: Seq<char>, ty: Seq<char>, required: bool, description: Seq<char>) -> JsonValue {
    JsonValue::Object(
        seq![
            str_member("name"@, name),
            str_member("type"@, ty),
            ("required"@, JsonValue::Bool(required)),
            str_member("description"@, description),
        ],
    )
}

/// An optional argument that may be given more than once.
pub open spec fn repeatable_arg_value(name: Seq<char>, ty: Seq<char>, description: Seq<char>) -> JsonValue {
    JsonValue::Object(
        seq![
            str_member("name"@, name),
            str_member("type"@, ty),
            ("required"@, JsonValue::Bool(false)),
            ("repeatable"@, JsonValue::Bool(true)),
            str_member("description"@, description),
        ],
    )
}

/// An optional argument of every command, with its default.
pub open spec fn global_arg_value(name: Seq<char>, ty: Seq<char>, default: Seq<char>, description: Seq<char>) -> JsonValue {
    JsonValue::Object(
        seq![
            str_member("name"@, name),
            str_member("type"@, ty),
            ("required"@, JsonValue::Bool(false)),
            str_member("default"@, default),
            str_member("description"@, description),
        ],
    )
}

/// The arguments every command takes.
pub open spec fn global_args_value() -> Seq<JsonValue> {
    seq![
        global_arg_value(
            "--timeout"@,
            "duration"@,
            "10m (30m for run)"@,
            "Give up after this long (humantime syntax, e.g. 30s, 10m, 1h30m)"@,
        ),
        global_arg_value(
            "--interval"@,
            "duration"@,
            "adaptive 2s..30s (fixed 10s for run)"@,
            "Fixed poll interval"@,
        ),
        JsonValue::Object(
            seq![
                str_member("name"@, "--output"@),
                str_member("type"@, "string"@),
                ("required"@, JsonValue::Bool(false)),
                ("enum"@, JsonValue::Array(seq![JsonValue::Str("json"@), JsonValue::Str("text"@)])),
                str_member("default"@, "json when piped, text on TTY"@),
                str_member("description"@, "Output format (-o)"@),
            ],
        ),
    ]
}

/// A command that waits and ends in a verdict.
pub open spec fn command_value(name: Seq<char>, description: Seq<char>, mutating: bool, args: Seq<JsonValue>) -> JsonValue {
    JsonValue::Object(
        seq![
            str_member("name"@, name),
            str_member("description"@, description),
            ("mutating"@, JsonValue::Bool(mutating)),
            ("args"@, JsonValue::Array(args)),
            ("output_fields"@, JsonValue::Array(verdict_fields_value())),
        ],
    )
}

/// A command that waits and ends in a verdict, with notes.
pub open spec fn noted_command_value(
    name: Seq<char>,
    description: Seq<char>,
    mutating: bool,
    args: Seq<JsonValue>,
    notes: Seq<char>,
) -> JsonValue {
    JsonValue::Object(
        seq![
            str_member("name"@, name),
            str_member("description"@, description),
            ("mutating"@, JsonValue::Bool(mutating)),
            ("args"@, JsonValue::Array(args)),
            ("output_fields"@, JsonValue::Array(verdict_fields_value())),
            str_member("notes"@, notes),
        ],
    )
}

pub open spec fn gh_run_command_value() -> JsonValue {
    noted_command_value(
        "gh run"@,
        "Wait for a GitHub Actions run to complete. A red run is a terminal outcome: polling stops immediately and the verdict carries a bounded failure digest."@,
        false,
        seq![
            arg_value(
                "run_id"@,
                "integer"@,
                false,
                "Run id; defaults to the latest run for the current repo and branch"@,
            ),
            arg_value(
                "--repo"@,
                "string"@,
                false,
                "Repository as owner/name (-R); defaults to the repo of the current directory"@,
            ),
            arg_value(
                "--workflow"@,
                "string"@,
                false,
                "Resolve the latest run of this workflow (name or file); takes priority over current-branch inference so it finds tag-triggered runs such as releases"@,
            ),
            arg_value("--branch"@, "string"@, false, "Filter the latest-run lookup by branch"@),
        ],
        "Requires the gh CLI, installed and authenticated. Missing gh exits 4 (environment)."@,
    )
}

pub open spec fn http_command_value() -> JsonValue {
    command_value(
        "http"@,
        "Wait for an HTTP endpoint to match status and content conditions."@,
        false,
        seq![
            arg_value("url"@, "string"@, true, "URL to poll with GET requests"@),
            arg_value(
                "--status"@,
                "integer"@,
                false,
                "Require this exact status code (default: any 2xx)"@,
            ),
            repeatable_arg_value("--contains"@, "string"@, "Require the body to contain this string"@),
            repeatable_arg_value(
                "--json-path"@,
                "string"@,
                "Require a JSON body field to equal a value: <dot.path>=<value>, e.g. status.state=ready or jobs.0.state=done"@,
            ),
            repeatable_arg_value("--header"@, "string"@, "Extra request header as 'Name: value'"@),
        ],
    )
}

pub open spec fn tcp_command_value() -> JsonValue {
    command_value(
        "tcp"@,
        "Wait for a TCP port to accept connections."@,
        false,
        seq![arg_value("addr"@, "string"@, true, "host:port"@)],
    )
}

pub open spec fn file_command_value() -> JsonValue {
    command_value(
        "file"@,
        "Wait for a file to exist and optionally match content."@,
        false,
        seq![
            arg_value("path"@, "string"@, true, "File path to watch"@),
            arg_value(
                "--contains"@,
                "string"@,
                false,
                "Require the file content to contain this string (conflicts with --regex)"@,
            ),
            arg_value("--regex"@, "string"@, false, "Require the file content to match this regex"@),
        ],
    )
}

pub open spec fn cmd_command_value() -> JsonValue {
    noted_command_value(
        "cmd"@,
        "Wait for a command to succeed: exit 0, or --ok-output match. The command and its arguments follow a -- separator."@,
        true,
        seq![
            arg_value(
                "--ok-output"@,
                "string"@,
                false,
                "Treat a match of this regex against combined stdout+stderr as success, regardless of exit code"@,
            ),
            arg_value("command"@, "array"@, true, "The command and its arguments, after --"@),
        ],
        "Executes the supplied command once per poll; mutating if the wrapped command is."@,
    )
}

pub open spec fn schema_command_value() -> JsonValue {
    JsonValue::Object(
        seq![
            str_member("name"@, "schema"@),
            str_member(
                "description"@,
                "Print this machine-readable clispec contract. Needs no network, auth, or config."@,
            ),
            ("mutating"@, JsonValue::Bool(false)),
            ("args"@, JsonValue::Array(Seq::empty())),
            ("output_fields"@, JsonValue::Array(Seq::empty())),
        ],
    )
}

/// The commands, in the order the contract lists them.
pub open spec fn commands_value() -> Seq<JsonValue> {
    seq![
        gh_run_command_value(),
        http_command_value(),
        tcp_command_value(),
        file_command_value(),
        cmd_command_value(),
        schema_command_value(),
    ]
}

/// How a wait may end other than with the condition met.
pub open spec fn outcome_value(kind: Seq<char>, exit_code: int, retryable: bool, description: Seq<char>) -> JsonValue {
    JsonValue::Object(
        seq![
            str_member("kind"@, kind),
            ("exit_code"@, JsonValue::Int(exit_code)),
            ("retryable"@, JsonValue::Bool(retryable)),
            str_member("description"@, description),
        ],
    )
}

pub open spec fn outcomes_value() -> Seq<JsonValue> {
    seq![
        outcome_value(
            "timeout"@,
            1,
            true,
            "Timeout expired before the condition was met; detail.last_note carries the most recent transient error"@,
        ),
        outcome_value(
            "condition_failed"@,
            2,
            false,
            "The condition failed terminally (e.g. the run concluded red)"@,
        ),
    ]
}

/// How the command may fail before it waits.
pub open spec fn error_value(kind: Seq<char>, exit_code: int, message: Seq<char>, hint: Seq<char>) -> JsonValue {
    JsonValue::Object(
        seq![
            str_member("kind"@, kind),
            ("exit_code"@, JsonValue::Int(exit_code)),
            ("retryable"@, JsonValue::Bool(false)),
            str_member("message"@, message),
            str_member("hint"@, hint),
        ],
    )
}

pub open spec fn errors_value() -> Seq<JsonValue> {
    seq![
        error_value("usage"@, 3, "Invalid arguments"@, "Run tarry --help"@),
        error_value("environment"@, 4, "Missing dependency"@, "Install and authenticate the gh CLI"@),
    ]
}

/// The whole contract.
pub open spec fn schema_value() -> JsonValue {
    JsonValue::Object(
        seq![
            str_member("clispec"@, "0.2"@),
            str_member("name"@, "tarry"@),
            str_member("version"@, VERSION@),
            str_member(
                "description"@,
                "Block until a condition holds, then print one compact verdict."@,
            ),
            ("global_args"@, JsonValue::Array(global_args_value())),
            ("commands"@, JsonValue::Array(commands_value())),
            ("outcomes"@, JsonValue::Array(outcomes_value())),
            ("errors"@, JsonValue::Array(errors_value())),
        ],
    )
}

fn add_member(members: &mut Vec<(String, Json)>, key: &str, value: Json)
    ensures
        members_view(final(members)@) == members_view(old(members)@).push((key@, value@)),
{
    let ghost before = members@;
    members.push((String::from_str(key), value));
    assert(members@.drop_last() == before);
}

fn add_str(members: &mut Vec<(String, Json)>, key: &str, value: &str)
    ensures
        members_view(final(members)@) == members_view(old(members)@).push(str_member(key@, value@)),
{
    add_member(members, key, Json::Str(String::from_str(value)));
}

fn add_item(items: &mut Vec<Json>, value: Json)
    ensures
        items_view(final(items)@) == items_view(old(items)@).push(value@),
{
    let ghost before = items@;
    items.push(value);
    assert(items@.drop_last() == before);
}

fn field(name: &str, ty: &str, description: &str) -> (res: Json)
    ensures
        res@ == field_value(name@, ty@, description@),
{
    let mut m: Vec<(String, Json)> = Vec::new();
    add_str(&mut m, "name", name);
    add_str(&mut m, "type", ty);
    add_str(&mut m, "description", description);
    assert(members_view(m@) =~= seq![
        str_member("name"@, name@),
        str_member("type"@, ty@),
        str_member("description"@, description@),
    ]);
    Json::Object(m)
}

fn verdict_fields() -> (res: Vec<Json>)
    ensures
        items_view(res@) == verdict_fields_value(),
{
    let mut kinds: Vec<Json> = Vec::new();
    add_item(&mut kinds, Json::Str(String::from_str("met")));
    add_item(&mut kinds, Json::Str(String::from_str("timeout")));
    add_item(&mut kinds, Json::Str(String::from_str("condition_failed")));
    let mut kind: Vec<(String, Json)> = Vec::new();
    add_str(&mut kind, "name", "kind");
    add_str(&mut kind, "type", "string");
    add_member(&mut kind, "enum", Json::Array(kinds));
    add_str(&mut kind, "description", "Outcome kind");
    assert(items_view(kinds@) =~= seq![
        JsonValue::Str("met"@),
        JsonValue::Str("timeout"@),
        JsonValue::Str("condition_failed"@),
    ]);
    assert(members_view(kind@) =~= seq![
        str_member("name"@, "kind"@),
        str_member("type"@, "string"@),
        ("enum"@, JsonValue::Array(items_view(kinds@))),
        str_member("description"@, "Outcome kind"@),
    ]);
    let mut fields: Vec<Json> = Vec::new();
    add_item(&mut fields, field("condition", "string", "Condition type that was awaited"));
    add_item(&mut fields, field("ok", "boolean", "True when the condition was met"));
    add_item(&mut fields, Json::Object(kind));
    add_item(&mut fields, field("waited_s", "integer", "Seconds spent waiting"));
    add_item(&mut fields, field("polls", "integer", "Number of polls performed"));
    add_item(
        &mut fields,
        field(
            "detail",
            "object",
            "Condition-specific detail; failure digests are bounded to 20 log lines and set detail.truncated=true when clipped",
        ),
    );
    assert(items_view(fields@) =~= verdict_fields_value());
    fields
}

fn arg(name: &str, ty: &str, required: bool, description: &str) -> (res: Json)
    ensures
        res@ == arg_value(name@, ty@, required, description@),
{
    let mut m: Vec<(String, Json)> = Vec::new();
    add_str(&mut m, "name", name);
    add_str(&mut m, "type", ty);
    add_member(&mut m, "required", Json::Bool(required));
    add_str(&mut m, "description", description);
    assert(members_view(m@) =~= seq![
        str_member("name"@, name@),
        str_member("type"@, ty@),
        ("required"@, JsonValue::Bool(required)),
        str_member("description"@, description@),
    ]);
    Json::Object(m)
}

fn repeatable_arg(name: &str, ty: &str, description: &str) -> (res: Json)
    ensures
        res@ == repeatable_arg_value(name@, ty@, description@),
{
    let mut m: Vec<(String, Json)> = Vec::new();
    add_str(&mut m, "name", name);
    add_str(&mut m, "type", ty);
    add_member(&mut m, "required", Json::Bool(false));
    add_member(&mut m, "repeatable", Json::Bool(true));
    add_str(&mut m, "description", description);
    assert(members_view(m@) =~= seq![
        str_member("name"@, name@),
        str_member("type"@, ty@),
        ("required"@, JsonValue::Bool(false)),
        ("repeatable"@, JsonValue::Bool(true)),
        str_member("description"@, description@),
    ]);
    Json::Object(m)
}

fn global_arg(name: &str, ty: &str, default: &str, description: &str) -> (res: Json)
    ensures
        res@ == global_arg_value(name@, ty@, default@, description@),
{
    let mut m: Vec<(String, Json)> = Vec::new();
    add_str(&mut m, "name", name);
    add_str(&mut m, "type", ty);
    add_member(&mut m, "required", Json::Bool(false));
    add_str(&mut m, "default", default);
    add_str(&mut m, "description", description);
    assert(members_view(m@) =~= seq![
        str_member("name"@, name@),
        str_member("type"@, ty@),
        ("required"@, JsonValue::Bool(false)),
        str_member("default"@, default@),
        str_member("description"@, description@),
    ]);
    Json::Object(m)
}

fn global_args() -> (res: Vec<Json>)
    ensures
        items_view(res@) == global_args_value(),
{
    let mut formats: Vec<Json> = Vec::new();
    add_item(&mut formats, Json::Str(String::from_str("json")));
    add_item(&mut formats, Json::Str(String::from_str("text")));
    let mut output: Vec<(String, Json)> = Vec::new();
    add_str(&mut output, "name", "--output");
    add_str(&mut output, "type", "string");
    add_member(&mut output, "required", Json::Bool(false));
    add_member(&mut output, "enum", Json::Array(formats));
    add_str(&mut output, "default", "json when piped, text on TTY");
    add_str(&mut output, "description", "Output format (-o)");
    assert(items_view(formats@) =~= seq![JsonValue::Str("json"@), JsonValue::Str("text"@)]);
    assert(members_view(output@) =~= seq![
        str_member("name"@, "--output"@),
        str_member("type"@, "string"@),
        ("required"@, JsonValue::Bool(false)),
        ("enum"@, JsonValue::Array(items_view(formats@))),
        str_member("default"@, "json when piped, text on TTY"@),
        str_member("description"@, "Output format (-o)"@),
    ]);
    let mut args: Vec<Json> = Vec::new();
    add_item(
        &mut args,
        global_arg(
            "--timeout",
            "duration",
            "10m (30m for run)",
            "Give up after this long (humantime syntax, e.g. 30s, 10m, 1h30m)",
        ),
    );
    add_item(
        &mut args,
        global_arg(
            "--interval",
            "duration",
            "adaptive 2s..30s (fixed 10s for run)",
            "Fixed poll interval",
        ),
    );
    add_item(&mut args, Json::Object(output));
    assert(items_view(args@) =~= global_args_value());
    args
}

fn command(name: &str, description: &str, mutating: bool, args: Vec<Json>) -> (res: Json)
    ensures
        res@ == command_value(name@, description@, mutating, items_view(args@)),
{
    let ghost arg_values = items_view(args@);
    let mut m: Vec<(String, Json)> = Vec::new();
    add_str(&mut m, "name", name);
    add_str(&mut m, "description", description);
    add_member(&mut m, "mutating", Json::Bool(mutating));
    add_member(&mut m, "args", Json::Array(args));
    add_member(&mut m, "output_fields", Json::Array(verdict_fields()));
    assert(members_view(m@) =~= seq![
        str_member("name"@, name@),
        str_member("description"@, description@),
        ("mutating"@, JsonValue::Bool(mutating)),
        ("args"@, JsonValue::Array(arg_values)),
        ("output_fields"@, JsonValue::Array(verdict_fields_value())),
    ]);
    Json::Object(m)
}

fn noted_command(name: &str, description: &str, mutating: bool, args: Vec<Json>, notes: &str) -> (res: Json)
    ensures
        res@ == noted_command_value(name@, description@, mutating, items_view(args@), notes@),
{
    let ghost arg_values = items_view(args@);
    let mut m: Vec<(String, Json)> = Vec::new();
    add_str(&mut m, "name", name);
    add_str(&mut m, "description", description);
    add_member(&mut m, "mutating", Json::Bool(mutating));
    add_member(&mut m, "args", Json::Array(args));
    add_member(&mut m, "output_fields", Json::Array(verdict_fields()));
    add_str(&mut m, "notes", notes);
    assert(members_view(m@) =~= seq![
        str_member("name"@, name@),
        str_member("description"@, description@),
        ("mutating"@, JsonValue::Bool(mutating)),
        ("args"@, JsonValue::Array(arg_values)),
        ("output_fields"@, JsonValue::Array(verdict_fields_value())),
        str_member("notes"@, notes@),
    ]);
    Json::Object(m)
}

fn gh_run_command() -> (res: Json)
    ensures
        res@ == gh_run_command_value(),
{
    let mut args: Vec<Json> = Vec::new();
    add_item(
        &mut args,
        arg(
            "run_id",
            "integer",
            false,
            "Run id; defaults to the latest run for the current repo and branch",
        ),
    );
    add_item(
        &mut args,
        arg(
            "--repo",
            "string",
            false,
            "Repository as owner/name (-R); defaults to the repo of the current directory",
        ),
    );
    add_item(
        &mut args,
        arg(
            "--workflow",
            "string",
            false,
            "Resolve the latest run of this workflow (name or file); takes priority over current-branch inference so it finds tag-triggered runs such as releases",
        ),
    );
    add_item(&mut args, arg("--branch", "string", false, "Filter the latest-run lookup by branch"));
    let ghost arg_values = items_view(args@);
    let res = noted_command(
        "gh run",
        "Wait for a GitHub Actions run to complete. A red run is a terminal outcome: polling stops immediately and the verdict carries a bounded failure digest.",
        false,
        args,
        "Requires the gh CLI, installed and authenticated. Missing gh exits 4 (environment).",
    );
    assert(arg_values =~= match gh_run_command_value() {
        JsonValue::Object(m) => match m[3].1 {
            JsonValue::Array(a) => a,
            _ => Seq::empty(),
        },
        _ => Seq::empty(),
    });
    res
}

fn http_command() -> (res: Json)
    ensures
        res@ == http_command_value(),
{
    let mut args: Vec<Json> = Vec::new();
    add_item(&mut args, arg("url", "string", true, "URL to poll with GET requests"));
    add_item(
        &mut args,
        arg("--status", "integer", false, "Require this exact status code (default: any 2xx)"),
    );
    add_item(&mut args, repeatable_arg("--contains", "string", "Require the body to contain this string"));
    add_item(
        &mut args,
        repeatable_arg(
            "--json-path",
            "string",
            "Require a JSON body field to equal a value: <dot.path>=<value>, e.g. status.state=ready or jobs.0.state=done",
        ),
    );
    add_item(&mut args, repeatable_arg("--header", "string", "Extra request header as 'Name: value'"));
    let ghost arg_values = items_view(args@);
    let res = command(
        "http",
        "Wait for an HTTP endpoint to match status and content conditions.",
        false,
        args,
    );
    assert(arg_values =~= match http_command_value() {
        JsonValue::Object(m) => match m[3].1 {
            JsonValue::Array(a) => a,
            _ => Seq::empty(),
        },
        _ => Seq::empty(),
    });
    res
}

fn tcp_command() -> (res: Json)
    ensures
        res@ == tcp_command_value(),
{
    let mut args: Vec<Json> = Vec::new();
    add_item(&mut args, arg("addr", "string", true, "host:port"));
    let ghost arg_values = items_view(args@);
    let res = command("tcp", "Wait for a TCP port to accept connections.", false, args);
    assert(arg_values =~= seq![arg_value("addr"@, "string"@, true, "host:port"@)]);
    res
}

fn file_command() -> (res: Json)
    ensures
        res@ == file_command_value(),
{
    let mut args: Vec<Json> = Vec::new();
    add_item(&mut args, arg("path", "string", true, "File path to watch"));
    add_item(
        &mut args,
        arg(
            "--contains",
            "string",
            false,
            "Require the file content to contain this string (conflicts with --regex)",
        ),
    );
    add_item(&mut args, arg("--regex", "string", false, "Require the file content to match this regex"));
    let ghost arg_values = items_view(args@);
    let res = command("file", "Wait for a file to exist and optionally match content.", false, args);
    assert(arg_values =~= match file_command_value() {
        JsonValue::Object(m) => match m[3].1 {
            JsonValue::Array(a) => a,
            _ => Seq::empty(),
        },
        _ => Seq::empty(),
    });
    res
}

fn cmd_command() -> (res: Json)
    ensures
        res@ == cmd_command_value(),
{
    let mut args: Vec<Json> = Vec::new();
    add_item(
        &mut args,
        arg(
            "--ok-output",
            "string",
            false,
            "Treat a match of this regex against combined stdout+stderr as success, regardless of exit code",
        ),
    );
    add_item(&mut args, arg("command", "array", true, "The command and its arguments, after --"));
    let ghost arg_values = items_view(args@);
    let res = noted_command(
        "cmd",
        "Wait for a command to succeed: exit 0, or --ok-output match. The command and its arguments follow a -- separator.",
        true,
        args,
        "Executes the supplied command once per poll; mutating if the wrapped command is.",
    );
    assert(arg_values =~= match cmd_command_value() {
        JsonValue::Object(m) => match m[3].1 {
            JsonValue::Array(a) => a,
            _ => Seq::empty(),
        },
        _ => Seq::empty(),
    });
    res
}

fn schema_command() -> (res: Json)
    ensures
        res@ == schema_command_value(),
{
    let mut m: Vec<(String, Json)> = Vec::new();
    add_str(&mut m, "name", "schema");
    add_str(
        &mut m,
        "description",
        "Print this machine-readable clispec contract. Needs no network, auth, or config.",
    );
    add_member(&mut m, "mutating", Json::Bool(false));
    add_member(&mut m, "args", Json::Array(Vec::new()));
    add_member(&mut m, "output_fields", Json::Array(Vec::new()));
    assert(members_view(m@) =~= match schema_command_value() {
        JsonValue::Object(members) => members,
        _ => Seq::empty(),
    });
    Json::Object(m)
}

fn outcome(kind: &str, exit_code: u64, retryable: bool, description: &str) -> (res: Json)
    ensures
        res@ == outcome_value(kind@, exit_code as int, retryable, description@),
{
    let mut m: Vec<(String, Json)> = Vec::new();
    add_str(&mut m, "kind", kind);
    add_member(&mut m, "exit_code", Json::UInt(exit_code));
    add_member(&mut m, "retryable", Json::Bool(retryable));
    add_str(&mut m, "description", description);
    assert(members_view(m@) =~= seq![
        str_member("kind"@, kind@),
        ("exit_code"@, JsonValue::Int(exit_code as int)),
        ("retryable"@, JsonValue::Bool(retryable)),
        str_member("description"@, description@),
    ]);
    Json::Object(m)
}

fn error_entry(kind: &str, exit_code: u64, message: &str, hint: &str) -> (res: Json)
    ensures
        res@ == error_value(kind@, exit_code as int, message@, hint@),
{
    let mut m: Vec<(String, Json)> = Vec::new();
    add_str(&mut m, "kind", kind);
    add_member(&mut m, "exit_code", Json::UInt(exit_code));
    add_member(&mut m, "retryable", Json::Bool(false));
    add_str(&mut m, "message", message);
    add_str(&mut m, "hint", hint);
    assert(members_view(m@) =~= seq![
        str_member("kind"@, kind@),
        ("exit_code"@, JsonValue::Int(exit_code as int)),
        ("retryable"@, JsonValue::Bool(false)),
        str_member("message"@, message@),
        str_member("hint"@, hint@),
    ]);
    Json::Object(m)
}

/// The machine-readable contract of the command, as a JSON value.
pub fn document() -> (res: Json)
    ensures
        res@ == schema_value(),
{
    let mut commands: Vec<Json> = Vec::new();
    add_item(&mut commands, gh_run_command());
    add_item(&mut commands, http_command());
    add_item(&mut commands, tcp_command());
    add_item(&mut commands, file_command());
    add_item(&mut commands, cmd_command());
    add_item(&mut commands, schema_command());
    assert(items_view(commands@) =~= commands_value());
    let mut outcomes: Vec<Json> = Vec::new();
    add_item(
        &mut outcomes,
        outcome(
            "timeout",
            1,
            true,
            "Timeout expired before the condition was met; detail.last_note carries the most recent transient error",
        ),
    );
    add_item(
        &mut outcomes,
        outcome(
            "condition_failed",
            2,
            false,
            "The condition failed terminally (e.g. the run concluded red)",
        ),
    );
    assert(items_view(outcomes@) =~= outcomes_value());
    let mut errors: Vec<Json> = Vec::new();
    add_item(&mut errors, error_entry("usage", 3, "Invalid arguments", "Run tarry --help"));
    add_item(
        &mut errors,
        error_entry("environment", 4, "Missing dependency", "Install and authenticate the gh CLI"),
    );
    assert(items_view(errors@) =~= errors_value());
    let mut doc: Vec<(String, Json)> = Vec::new();
    add_str(&mut doc, "clispec", "0.2");
    add_str(&mut doc, "name", "tarry");
    add_str(&mut doc, "version", VERSION);
    add_str(&mut doc, "description", "Block until a condition holds, then print one compact verdict.");
    add_member(&mut doc, "global_args", Json::Array(global_args()));
    add_member(&mut doc, "commands", Json::Array(commands));
    add_member(&mut doc, "outcomes", Json::Array(outcomes));
    add_member(&mut doc, "errors", Json::Array(errors));
    assert(members_view(doc@) =~= match schema_value() {
        JsonValue::Object(members) => members,
        _ => Seq::empty(),
    });
    Json::Object(doc)
}

/// The value of the first member named `key`, when `v` is an object.
pub open spec fn member_value(v: JsonValue, key: Seq<char>) -> Option<JsonValue> {
    match v {
        JsonValue::Object(members) => member_from(members, key, 0),
        _ => None,
    }
}

/// The value of the first of `members` from index `i` on named `key`.
pub open spec fn member_from(members: Seq<(Seq<char>, JsonValue)>, key: Seq<char>, i: nat) -> Option<JsonValue>
    decreases members.len() - i,
{
    if i >= members.len() {
        None
    } else if members[i as int].0 == key {
        Some(members[i as int].1)
    } else {
        member_from(members, key, i + 1)
    }
}

/// The names of the members of an object, in order.
pub open spec fn member_keys(v: JsonValue) -> Seq<Seq<char>> {
    match v {
        JsonValue::Object(members) => members.map_values(|m: (Seq<char>, JsonValue)| m.0),
        _ => Seq::empty(),
    }
}

/// The `name` of each described field, in order.
pub open spec fn field_names(fields: Seq<JsonValue>) -> Seq<Seq<char>> {
    fields.map_values(
        |f: JsonValue|
            match member_value(f, "name"@) {
                Some(JsonValue::Str(name)) => name,
                _ => Seq::empty(),
            },
    )
}

proof fn lemma_member_keys_differ()
    ensures
        "name"@ != "output_fields"@,
        "description"@ != "output_fields"@,
        "mutating"@ != "output_fields"@,
        "args"@ != "output_fields"@,
        "name"@ != "mutating"@,
        "description"@ != "mutating"@,
{
    reveal_strlit("name");
    reveal_strlit("description");
    reveal_strlit("mutating");
    reveal_strlit("args");
    reveal_strlit("output_fields");
    assert("name"@.len() != "output_fields"@.len());
    assert("description"@.len() != "output_fields"@.len());
    assert("mutating"@.len() != "output_fields"@.len());
    assert("args"@.len() != "output_fields"@.len());
    assert("name"@.len() != "mutating"@.len());
    assert("description"@.len() != "mutating"@.len());
}

/// What a waiting command's members say.
proof fn lemma_command_members(name: Seq<char>, description: Seq<char>, mutating: bool, args: Seq<JsonValue>)
    ensures
        member_value(command_value(name, description, mutating, args), "name"@) == Some(JsonValue::Str(name)),
        member_value(command_value(name, description, mutating, args), "mutating"@) == Some(JsonValue::Bool(mutating)),
        member_value(command_value(name, description, mutating, args), "output_fields"@) == Some(
            JsonValue::Array(verdict_fields_value()),
        ),
{
    lemma_member_keys_differ();
    let m = match command_value(name, description, mutating, args) {
        JsonValue::Object(m) => m,
        _ => Seq::empty(),
    };
    assert(member_from(m, "output_fields"@, 4) == Some(JsonValue::Array(verdict_fields_value())));
    assert(member_from(m, "output_fields"@, 3) == member_from(m, "output_fields"@, 4));
    assert(member_from(m, "output_fields"@, 2) == member_from(m, "output_fields"@, 3));
    assert(member_from(m, "output_fields"@, 1) == member_from(m, "output_fields"@, 2));
    assert(member_from(m, "output_fields"@, 0) == member_from(m, "output_fields"@, 1));
    assert(member_from(m, "mutating"@, 1) == member_from(m, "mutating"@, 2));
    assert(member_from(m, "mutating"@, 0) == member_from(m, "mutating"@, 1));
}

/// What a waiting command's members say, when it has notes.
proof fn lemma_noted_command_members(
    name: Seq<char>,
    description: Seq<char>,
    mutating: bool,
    args: Seq<JsonValue>,
    notes: Seq<char>,
)
    ensures
        member_value(noted_command_value(name, description, mutating, args, notes), "name"@) == Some(
            JsonValue::Str(name),
        ),
        member_value(noted_command_value(name, description, mutating, args, notes), "mutating"@) == Some(
            JsonValue::Bool(mutating),
        ),
        member_value(noted_command_value(name, description, mutating, args, notes), "output_fields"@)
            == Some(JsonValue::Array(verdict_fields_value())),
{
    lemma_member_keys_differ();
    let m = match noted_command_value(name, description, mutating, args, notes) {
        JsonValue::Object(m) => m,
        _ => Seq::empty(),
    };
    assert(member_from(m, "output_fields"@, 4) == Some(JsonValue::Array(verdict_fields_value())));
    assert(member_from(m, "output_fields"@, 3) == member_from(m, "output_fields"@, 4));
    assert(member_from(m, "output_fields"@, 2) == member_from(m, "output_fields"@, 3));
    assert(member_from(m, "output_fields"@, 1) == member_from(m, "output_fields"@, 2));
    assert(member_from(m, "output_fields"@, 0) == member_from(m, "output_fields"@, 1));
    assert(member_from(m, "mutating"@, 1) == member_from(m, "mutating"@, 2));
    assert(member_from(m, "mutating"@, 0) == member_from(m, "mutating"@, 1));
}

/// Every command of the contract but `schema` lists as its output fields
/// exactly the members of the verdict it prints, in the same order.
pub proof fn lemma_output_fields_are_the_verdict(v: crate::verdict::Verdict, i: int)
    requires
        0 <= i < commands_value().len(),
        member_value(commands_value()[i], "name"@) != Some(JsonValue::Str("schema"@)),
    ensures
        member_value(commands_value()[i], "output_fields"@) matches Some(JsonValue::Array(fields))
            && field_names(fields) == member_keys(crate::verdict::verdict_json(v)),
{
    let fields = verdict_fields_value();
    assert(field_names(fields) =~= member_keys(crate::verdict::verdict_json(v))) by {
        reveal_with_fuel(member_from, 2);
        assert(member_value(fields[0], "name"@) == Some(JsonValue::Str("condition"@)));
    }
    let c = commands_value()[i];
    if i == 5 {
        assert(member_value(c, "name"@) == Some(JsonValue::Str("schema"@)));
    } else if i == 0 || i == 4 {
        lemma_noted_command_members(
            match c { JsonValue::Object(m) => m[0].1->Str_0, _ => Seq::empty() },
            match c { JsonValue::Object(m) => m[1].1->Str_0, _ => Seq::empty() },
            i == 4,
            match c { JsonValue::Object(m) => m[3].1->Array_0, _ => Seq::empty() },
            match c { JsonValue::Object(m) => m[5].1->Str_0, _ => Seq::empty() },
        );
    } else {
        lemma_command_members(
            match c { JsonValue::Object(m) => m[0].1->Str_0, _ => Seq::empty() },
            match c { JsonValue::Object(m) => m[1].1->Str_0, _ => Seq::empty() },
            false,
            match c { JsonValue::Object(m) => m[3].1->Array_0, _ => Seq::empty() },
        );
    }
}

/// `cmd` runs the command it is given, so it is the one command the contract
/// marks as mutating; every other command only reads.
pub proof fn lemma_only_cmd_mutates(i: int)
    requires
        0 <= i < commands_value().len(),
    ensures
        member_value(commands_value()[i], "mutating"@) == Some(
            JsonValue::Bool(member_value(commands_value()[i], "name"@) == Some(JsonValue::Str("cmd"@))),
        ),
{
    let c = commands_value()[i];
    reveal_strlit("cmd");
    reveal_strlit("gh run");
    reveal_strlit("http");
    reveal_strlit("tcp");
    reveal_strlit("file");
    reveal_strlit("schema");
    assert("gh run"@ != "cmd"@ && "schema"@ != "cmd"@ && "http"@ != "cmd"@ && "file"@ != "cmd"@) by {
        assert("gh run"@.len() != "cmd"@.len() && "schema"@.len() != "cmd"@.len());
        assert("http"@.len() != "cmd"@.len() && "file"@.len() != "cmd"@.len());
    }
    assert("tcp"@ != "cmd"@) by {
        assert("tcp"@[0] != "cmd"@[0]);
    }
    if i == 5 {
        lemma_member_keys_differ();
        let m = match c {
            JsonValue::Object(m) => m,
            _ => Seq::empty(),
        };
        assert(member_from(m, "mutating"@, 1) == member_from(m, "mutating"@, 2));
        assert(member_from(m, "mutating"@, 0) == member_from(m, "mutating"@, 1));
    } else if i == 0 || i == 4 {
        lemma_noted_command_members(
            match c { JsonValue::Object(m) => m[0].1->Str_0, _ => Seq::empty() },
            match c { JsonValue::Object(m) => m[1].1->Str_0, _ => Seq::empty() },
            i == 4,
            match c { JsonValue::Object(m) => m[3].1->Array_0, _ => Seq::empty() },
            match c { JsonValue::Object(m) => m[5].1->Str_0, _ => Seq::empty() },
        );
    } else {
        lemma_command_members(
            match c { JsonValue::Object(m) => m[0].1->Str_0, _ => Seq::empty() },
            match c { JsonValue::Object(m) => m[1].1->Str_0, _ => Seq::empty() },
            false,
            match c { JsonValue::Object(m) => m[3].1->Array_0, _ => Seq::empty() },
        );
    }
}

/// What an outcome's members say.
proof fn lemma_outcome_members(kind: Seq<char>, exit_code: int, retryable: bool, description: Seq<char>)
    ensures
        member_value(outcome_value(kind, exit_code, retryable, description), "kind"@) == Some(
            JsonValue::Str(kind),
        ),
        member_value(outcome_value(kind, exit_code, retryable, description), "exit_code"@) == Some(
            JsonValue::Int(exit_code),
        ),
        member_value(outcome_value(kind, exit_code, retryable, description), "retryable"@) == Some(
            JsonValue::Bool(retryable),
        ),
{
    reveal_strlit("kind");
    reveal_strlit("exit_code");
    reveal_strlit("retryable");
    assert("kind"@.len() != "exit_code"@.len() && "kind"@.len() != "retryable"@.len());
    assert("exit_code"@ != "retryable"@) by {
        assert("exit_code"@[0] != "retryable"@[0]);
    }
    let m = match outcome_value(kind, exit_code, retryable, description) {
        JsonValue::Object(m) => m,
        _ => Seq::empty(),
    };
    assert(member_from(m, "exit_code"@, 0) == member_from(m, "exit_code"@, 1));
    assert(member_from(m, "retryable"@, 1) == member_from(m, "retryable"@, 2));
    assert(member_from(m, "retryable"@, 0) == member_from(m, "retryable"@, 1));
}

/// Each way a wait can end other than met is listed among the contract's
/// outcomes under its verdict kind, with the exit code that verdict exits
/// with; only a timeout is worth retrying.
pub proof fn lemma_outcomes_match_verdicts(kind: crate::verdict::VerdictKind)
    requires
        kind != crate::verdict::VerdictKind::Met,
    ensures
        exists|j: int|
            0 <= j < outcomes_value().len() && #[trigger] member_value(outcomes_value()[j], "kind"@)
                == Some(JsonValue::Str(crate::verdict::kind_name(kind))) && member_value(
                outcomes_value()[j],
                "exit_code"@,
            ) == Some(JsonValue::Int(crate::verdict::kind_exit_code(kind) as int)) && member_value(
                outcomes_value()[j],
                "retryable"@,
            ) == Some(JsonValue::Bool(kind == crate::verdict::VerdictKind::Timeout)),
{
    let j: int = if kind == crate::verdict::VerdictKind::Timeout {
        0
    } else {
        1
    };
    let o = outcomes_value()[j];
    lemma_outcome_members(
        match o { JsonValue::Object(m) => m[0].1->Str_0, _ => Seq::empty() },
        match o { JsonValue::Object(m) => m[1].1->Int_0, _ => 0 },
        j == 0,
        match o { JsonValue::Object(m) => m[3].1->Str_0, _ => Seq::empty() },
    );
    assert(member_value(outcomes_value()[j], "kind"@) == Some(
        JsonValue::Str(crate::verdict::kind_name(kind)),
    ));
}

} // verus!


