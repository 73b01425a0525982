//! What the front end tells the learner when the execution endpoint answers with an error.
use vstd::prelude::*;
use crate::text::{chars_of, decimal, decimal_exec, push_all, push_str, string_of};

verus! {

/// The `error` string of the JSON object `body`; none when `body` is not JSON, not an
/// object, or has no string under `error`.
pub uninterp spec fn json_error_field(body: Seq<char>) -> Option<Seq<char>>;

/// Parses `body` with `serde_json::from_str` into a `serde_json::Value` and takes the
/// string under `error`. The contract names the result; it says nothing of JSON parsing.
#[verifier::external_body]
fn read_error_field(body: &str) -> (r: Option<String>)
    ensures
        match r {
            Some(m) => json_error_field(body@) == Some(m@),
            None => json_error_field(body@) is None,
        },
{
    serde_json::from_str::<serde_json::Value>(body)
        .ok()
        .and_then(|v| v.get("error").and_then(|e| e.as_str()).map(String::from))
}

/// The message shown for an error answer with `status` and the field `error`, if any:
/// that field when present, else a message that names the status.
pub open spec fn spec_error_message(status: u16, field: Option<Seq<char>>) -> Seq<char> {
    match field {
        Some(m) => m,
        None => "実行サービスへの接続に失敗しました (HTTP "@ + decimal(status as nat) + ")"@,
    }
}

/// The message for an error answer whose field `error` is `field`.
pub fn error_message(status: u16, field: Option<String>) -> (m: String)
    ensures
        m@ == spec_error_message(
            status,
            match field {
                Some(f) => Some(f@),
                None => None,
            },
        ),
{
    match field {
        Some(f) => f,
        None => {
            let mut v = chars_of("実行サービスへの接続に失敗しました (HTTP ");
            let d = decimal_exec(status as u64);
            push_all(&mut v, &d);
            push_str(&mut v, ")");
            string_of(&v)
        },
    }
}

/// The message for an error answer with `status` and body `body` (`{"error": "..."}`).
pub fn error_message_from_body(status: u16, body: &str) -> (m: String)
    ensures
        m@ == spec_error_message(status, json_error_field(body@)),
{
    let field = read_error_field(body);
    error_message(status, field)
}

} // verus!
