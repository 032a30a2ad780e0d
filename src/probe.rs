//! Questions put to the media probe, and the reading of its JSON answers.
use vstd::prelude::*;
use serde_json::Value;
use crate::error::{DataProblem, EditorError, ToolProblem};
use crate::text::{push_arg, texts};
use crate::timing::{parse_seconds, seconds_value};

verus! {

#[verifier::external_type_specification]
#[verifier::external_body]
pub struct ExValue(Value);

/// The value that a text denotes as a JSON document; none where it is not
/// one that the parser takes (it is no JSON, or nests too deep).
pub uninterp spec fn json_of(text: Seq<char>) -> Option<Value>;

/// The member of a JSON object under a key; none where the value is no
/// object or has no such member.
pub uninterp spec fn json_member(v: Value, key: Seq<char>) -> Option<Value>;

/// The text of a JSON string; none where the value is no string.
pub uninterp spec fn json_str(v: Value) -> Option<Seq<char>>;

/// The number of items of a JSON array; none where the value is no array.
pub uninterp spec fn json_array_len(v: Value) -> Option<nat>;

/// Relies on serde_json::from_str into a Value: its result depends on the
/// text alone.
#[verifier::external_body]
fn parse_json(text: &str) -> (r: Option<Value>)
    ensures
        r == json_of(text@),
{
    serde_json::from_str::<Value>(text).ok()
}

/// Relies on serde_json::Value::get with a string key.
#[verifier::external_body]
fn member<'a>(v: &'a Value, key: &str) -> (r: Option<&'a Value>)
    ensures
        match json_member(*v, key@) {
            Some(m) => (r matches Some(x) && *x == m),
            None => r is None,
        },
{
    v.get(key)
}

/// Relies on serde_json::Value::as_str.
#[verifier::external_body]
fn string_of(v: &Value) -> (r: Option<String>)
    ensures
        match json_str(*v) {
            Some(t) => (r matches Some(x) && x@ == t),
            None => r is None,
        },
{
    v.as_str().map(|s| s.to_string())
}

/// Relies on serde_json::Value::as_array.
#[verifier::external_body]
fn array_of(v: &Value) -> (r: Option<&Vec<Value>>)
    ensures
        match json_array_len(*v) {
            Some(n) => (r matches Some(a) && a@.len() == n),
            None => r is None,
        },
{
    v.as_array()
}

/// What the probe handed back: whether it exited successfully, and what it
/// wrote.
pub struct ProbeOutput {
    pub success: bool,
    pub stdout: String,
    pub stderr: String,
}

/// The text at `format.duration` of a probe's answer.
pub open spec fn duration_text(v: Value) -> Option<Seq<char>> {
    match json_member(v, "format"@) {
        Some(f) => match json_member(f, "duration"@) {
            Some(d) => json_str(d),
            None => None,
        },
        None => None,
    }
}

/// The duration that a probe's answer gives, in microseconds.
pub open spec fn duration_outcome(v: Value) -> Result<u64, EditorError> {
    match duration_text(v) {
        None => Err(EditorError::Data(DataProblem::MissingDuration)),
        Some(t) => match seconds_value(t) {
            Some(us) => Ok(us as u64),
            None => Err(EditorError::Data(DataProblem::BadDuration)),
        },
    }
}

/// Whether a probe's answer lists at least one stream.
pub open spec fn audio_outcome(v: Value) -> bool {
    match json_member(v, "streams"@) {
        Some(s) => match json_array_len(s) {
            Some(n) => n > 0,
            None => false,
        },
        None => false,
    }
}

/// Reads the container duration from a parsed probe answer.
pub fn duration_from_json(v: &Value) -> (r: Result<u64, EditorError>)
    ensures
        r == duration_outcome(*v),
{
    let text = match member(v, "format") {
        Some(f) => match member(f, "duration") {
            Some(d) => string_of(d),
            None => None,
        },
        None => None,
    };
    match text {
        None => Err(EditorError::Data(DataProblem::MissingDuration)),
        Some(t) => match parse_seconds(t.as_str()) {
            Some(us) => Ok(us),
            None => Err(EditorError::Data(DataProblem::BadDuration)),
        },
    }
}

/// Reads from a parsed probe answer whether any stream was listed.
pub fn audio_from_json(v: &Value) -> (r: bool)
    ensures
        r == audio_outcome(*v),
{
    match member(v, "streams") {
        Some(s) => match array_of(s) {
            Some(a) => a.len() > 0,
            None => false,
        },
        None => false,
    }
}

/// The duration that a probe run reports. A failed run or an answer that is
/// not JSON is a failure of the tool; otherwise the parsed answer is read as
/// `duration_from_json` reads it.
pub fn duration_from_output(out: &ProbeOutput) -> (r: Result<u64, EditorError>)
    ensures
        !out.success ==> r == Err::<u64, EditorError>(
            EditorError::ExternalTool(ToolProblem::ProbeExit(out.stderr)),
        ),
        out.success ==> match json_of(out.stdout@) {
            Some(v) => r == duration_outcome(v),
            None => r == Err::<u64, EditorError>(EditorError::ExternalTool(ToolProblem::Unparseable)),
        },
{
    if !out.success {
        return Err(EditorError::ExternalTool(ToolProblem::ProbeExit(out.stderr.clone())));
    }
    match parse_json(out.stdout.as_str()) {
        None => Err(EditorError::ExternalTool(ToolProblem::Unparseable)),
        Some(v) => duration_from_json(&v),
    }
}

/// Whether a probe run restricted to audio streams found one. A failed run
/// or an answer that is not JSON is a failure of the tool.
pub fn audio_from_output(out: &ProbeOutput) -> (r: Result<bool, EditorError>)
    ensures
        !out.success ==> r == Err::<bool, EditorError>(
            EditorError::ExternalTool(ToolProblem::ProbeExit(out.stderr)),
        ),
        out.success ==> match json_of(out.stdout@) {
            Some(v) => r == Ok::<bool, EditorError>(audio_outcome(v)),
            None => r == Err::<bool, EditorError>(EditorError::ExternalTool(ToolProblem::Unparseable)),
        },
{
    if !out.success {
        return Err(EditorError::ExternalTool(ToolProblem::ProbeExit(out.stderr.clone())));
    }
    match parse_json(out.stdout.as_str()) {
        None => Err(EditorError::ExternalTool(ToolProblem::Unparseable)),
        Some(v) => Ok(audio_from_json(&v)),
    }
}

/// The arguments that ask the probe for a file's container duration.
pub open spec fn duration_probe_spec(path: Seq<char>) -> Seq<Seq<char>> {
    seq!["-v"@, "error"@, "-show_entries"@, "format=duration"@, "-of"@, "json"@, path]
}

/// The arguments that ask the probe for a file's audio streams.
pub open spec fn audio_probe_spec(path: Seq<char>) -> Seq<Seq<char>> {
    seq![
        "-v"@, "error"@, "-select_streams"@, "a"@, "-show_entries"@, "stream=codec_type"@,
        "-of"@, "json"@, path,
    ]
}

pub fn duration_probe_args(path: &str) -> (r: Vec<String>)
    ensures
        texts(r@) == duration_probe_spec(path@),
{
    let mut r: Vec<String> = Vec::new();
    push_arg(&mut r, "-v");
    push_arg(&mut r, "error");
    push_arg(&mut r, "-show_entries");
    push_arg(&mut r, "format=duration");
    push_arg(&mut r, "-of");
    push_arg(&mut r, "json");
    push_arg(&mut r, path);
    assert(texts(r@) =~= duration_probe_spec(path@));
    r
}

pub fn audio_probe_args(path: &str) -> (r: Vec<String>)
    ensures
        texts(r@) == audio_probe_spec(path@),
{
    let mut r: Vec<String> = Vec::new();
    push_arg(&mut r, "-v");
    push_arg(&mut r, "error");
    push_arg(&mut r, "-select_streams");
    push_arg(&mut r, "a");
    push_arg(&mut r, "-show_entries");
    push_arg(&mut r, "stream=codec_type");
    push_arg(&mut r, "-of");
    push_arg(&mut r, "json");
    push_arg(&mut r, path);
    assert(texts(r@) =~= audio_probe_spec(path@));
    r
}

} // verus!
