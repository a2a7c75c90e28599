//! Declarations of the outside types that the library carries, and the
//! trusted items through which it calls outside code.
use std::path::{Path, PathBuf};

use vstd::prelude::*;

use crate::transport::{EventPayload, EventPayloadView};

verus! {

#[verifier::external_type_specification]
#[verifier::external_body]
pub struct ExPathBuf(std::path::PathBuf);

#[verifier::external_type_specification]
#[verifier::external_body]
pub struct ExPath(std::path::Path);

#[verifier::external_type_specification]
#[verifier::external_body]
pub struct ExIoError(std::io::Error);

#[verifier::external_type_specification]
#[verifier::external_body]
pub struct ExJsonError(serde_json::Error);

#[verifier::external_type_specification]
#[verifier::external_body]
pub struct ExUrl(url::Url);

#[verifier::external_type_specification]
#[verifier::external_body]
pub struct ExUrlParseError(url::ParseError);

#[verifier::external_type_specification]
#[verifier::external_body]
pub struct ExHttpError(reqwest::Error);

#[verifier::external_type_specification]
#[verifier::external_body]
pub struct ExStatusCode(reqwest::StatusCode);

/// `PathBuf::clone` returns a path equal to the one it was called on.
pub assume_specification[ <std::path::PathBuf as Clone>::clone ](p: &std::path::PathBuf) -> (r:
    std::path::PathBuf)
    ensures
        r == *p,
;

/// `Url::clone` (derived field by field) returns a URL equal to the one it was called on.
pub assume_specification[ <url::Url as Clone>::clone ](u: &url::Url) -> (r: url::Url)
    ensures
        r == *u,
;

/// Whether `url::Url::parse` accepts `input` as an absolute URL.
pub uninterp spec fn url_accepts(input: Seq<char>) -> bool;

/// The URL that `url::Url::parse` builds from `input`, when it accepts it.
pub uninterp spec fn parsed_url(input: Seq<char>) -> url::Url;

/// The error that `url::Url::parse` reports for `input`, when it refuses it.
pub uninterp spec fn url_parse_error(input: Seq<char>) -> url::ParseError;

/// Calls `url::Url::parse`. Claimed: it succeeds exactly on the inputs that
/// `url_accepts` names, building `parsed_url(input)`, and otherwise reports
/// `url_parse_error(input)`; all three depend on the input alone.
#[verifier::external_body]
pub(crate) fn parse_url(input: &str) -> (r: Result<url::Url, url::ParseError>)
    ensures
        r is Ok <==> url_accepts(input@),
        r matches Ok(u) ==> u == parsed_url(input@),
        r matches Err(e) ==> e == url_parse_error(input@),
{
    url::Url::parse(input)
}

/// Whether `url::Url::join` accepts `input` relative to `base`.
pub uninterp spec fn url_join_accepts(base: url::Url, input: Seq<char>) -> bool;

/// The URL that `url::Url::join` gives for `input` relative to `base`, when it accepts it.
pub uninterp spec fn url_joined(base: url::Url, input: Seq<char>) -> url::Url;

/// The `Display` text of the error that `url::Url::join` reports for `input`
/// relative to `base`, when it refuses it.
pub uninterp spec fn url_join_error_text(base: url::Url, input: Seq<char>) -> Seq<char>;

/// Calls `url::Url::join` and renders a failure with its `Display` text. Claimed:
/// it succeeds exactly when `url_join_accepts(base, input)`, giving
/// `url_joined(base, input)`, and otherwise fails with `url_join_error_text(base, input)`;
/// all three depend on the base URL and the input alone.
#[verifier::external_body]
pub(crate) fn join_url(base: &url::Url, input: &str) -> (r: Result<url::Url, String>)
    ensures
        r is Ok <==> url_join_accepts(*base, input@),
        r matches Ok(u) ==> u == url_joined(*base, input@),
        r matches Err(m) ==> m@ == url_join_error_text(*base, input@),
{
    base.join(input).map_err(|error| error.to_string())
}

/// The path that `Path::join` gives for `name` joined onto `dir`.
pub uninterp spec fn path_joined(dir: &Path, name: Seq<char>) -> PathBuf;

/// Calls `Path::join`. Claimed: the result is `path_joined(dir, name)`, which
/// depends on `dir` and `name` alone.
#[verifier::external_body]
pub(crate) fn join_path(dir: &Path, name: &str) -> (r: PathBuf)
    ensures
        r == path_joined(dir, name@),
{
    dir.join(name)
}

/// What `serde_json` makes of `data` read as a Crew event payload: `None` when it
/// is not JSON; else, for each field the bridge reads, its value when the JSON is an
/// object holding it with a value of the expected JSON type, and the JSON text
/// that `serde_json` renders for the value.
pub uninterp spec fn event_payload_of(data: Seq<char>) -> Option<EventPayloadView>;

/// Calls `serde_json::from_str` into a `serde_json::Value` and reads the payload's
/// fields with `Value::get` and `as_str`, `as_u64`, `as_bool`, and its text with
/// `to_string`. Claimed: the result is `event_payload_of(data)`, which depends on
/// `data` alone.
#[verifier::external_body]
pub(crate) fn parse_event_payload(data: &str) -> (r: Option<EventPayload>)
    ensures
        match r {
            Some(p) => event_payload_of(data@) == Some(p@),
            None => event_payload_of(data@) is None,
        },
{
    let v: serde_json::Value = serde_json::from_str(data).ok()?;
    let text = |key: &str| v.get(key).and_then(serde_json::Value::as_str).map(String::from);
    let count = |key: &str| v.get(key).and_then(serde_json::Value::as_u64);
    Some(EventPayload {
        event_type: text("type"),
        text: text("text"),
        tool: text("tool"),
        content: text("content"),
        message: text("message"),
        iteration: count("iteration"),
        input_tokens: count("input_tokens"),
        output_tokens: count("output_tokens"),
        success: v.get("success").and_then(serde_json::Value::as_bool),
        json: v.to_string(),
    })
}

/// Calls `String::push`. Claimed: the string gains `c` at its end.
#[verifier::external_body]
pub(crate) fn push_char(s: &mut String, c: char)
    ensures
        final(s)@ == old(s)@.push(c),
{
    s.push(c)
}

} // verus!
