//! The checks around the bundled macOS credential helper: it must be the
//! exact helper the app was built with, and requests and replies are
//! bounded. Secrets travel only through its pipes.
use crate::digest::{hex_lower, sha256, sha256_hex};
use crate::text::{chars_of, eq_lit};
use vstd::prelude::*;

verus! {

/// The largest request or reply exchanged with the helper.
pub const MAX_HELPER_MESSAGE: usize = 65536;

/// The helper binary must have the SHA-256 recorded at build time.
pub fn check_helper(binary: &[u8], expected: &str) -> (r: Result<(), String>)
    ensures
        hex_lower(sha256(binary@)) == expected@ ==> r is Ok,
        hex_lower(sha256(binary@)) != expected@ ==> (r matches Err(m) && m@
            == "Credential helper integrity check failed"@),
{
    let digest = sha256_hex(binary);
    if !eq_lit(&chars_of(digest.as_str()), expected) {
        return Err(String::from_str("Credential helper integrity check failed"));
    }
    Ok(())
}

pub fn check_request(len: usize) -> (r: Result<(), String>)
    ensures
        len <= MAX_HELPER_MESSAGE ==> r is Ok,
        len > MAX_HELPER_MESSAGE ==> (r matches Err(m) && m@ == "Credential request too large"@),
{
    if len > MAX_HELPER_MESSAGE {
        return Err(String::from_str("Credential request too large"));
    }
    Ok(())
}

pub fn check_reply(len: usize) -> (r: Result<(), String>)
    ensures
        len <= MAX_HELPER_MESSAGE ==> r is Ok,
        len > MAX_HELPER_MESSAGE ==> (r matches Err(m) && m@ == "Keychain response too large"@),
{
    if len > MAX_HELPER_MESSAGE {
        return Err(String::from_str("Keychain response too large"));
    }
    Ok(())
}

/// What the helper's reply carries under `error`.
pub enum ReplyError {
    /// No `error` field.
    Absent,
    /// An `error` field holding text.
    Text(String),
    /// An `error` field holding anything else.
    Other,
}

/// A failed exit or an `error` field fails the request, with the helper's
/// own text when it gave one; otherwise the reply's `value` is the answer.
pub fn reply_outcome(exit_ok: bool, error: ReplyError, value: Option<String>) -> (r: Result<
    Option<String>,
    String,
>)
    ensures
        exit_ok && error is Absent ==> r == Ok::<Option<String>, String>(value),
        !(exit_ok && error is Absent) ==> match error {
            ReplyError::Text(t) => r matches Err(m) && m@ == t@,
            _ => r matches Err(m) && m@ == "Keychain operation failed"@,
        },
{
    match error {
        ReplyError::Absent => {
            if exit_ok {
                Ok(value)
            } else {
                Err(String::from_str("Keychain operation failed"))
            }
        },
        ReplyError::Text(t) => Err(t),
        ReplyError::Other => Err(String::from_str("Keychain operation failed")),
    }
}


/// The helper's request as `serde_json` writes it: the object with the
/// string fields `op` and `account` and the field `value`, a string or
/// null (`Ok` with the bytes, or `Err` with the encoder's message).
pub uninterp spec fn request_json(op: Seq<char>, account: Seq<char>, value: Option<Seq<char>>) -> Result<
    Seq<u8>,
    Seq<char>,
>;

/// What `serde_json` reads from the helper's reply: `None` when the bytes
/// are not JSON; otherwise its `error` field (absent, `Some(Some(text))`
/// for a string, `Some(None)` for anything else) and its `value` field when
/// that is a string.
pub uninterp spec fn helper_reply(output: Seq<u8>) -> Option<(Option<Option<Seq<char>>>, Option<Seq<char>>)>;

pub open spec fn str_view(v: Option<&str>) -> Option<Seq<char>> {
    match v {
        Some(s) => Some(s@),
        None => None,
    }
}

pub open spec fn opt_view(v: Option<String>) -> Option<Seq<char>> {
    match v {
        Some(s) => Some(s@),
        None => None,
    }
}

pub open spec fn error_view(e: ReplyError) -> Option<Option<Seq<char>>> {
    match e {
        ReplyError::Absent => None,
        ReplyError::Text(t) => Some(Some(t@)),
        ReplyError::Other => Some(None),
    }
}

/// `serde_json::to_vec` of the request object (keys `op`, `account`,
/// `value`; `value` null when absent), its error given by its message.
#[verifier::external_body]
fn encode_request(op: &str, account: &str, value: Option<&str>) -> (r: Result<Vec<u8>, String>)
    ensures
        match request_json(op@, account@, str_view(value)) {
            Ok(b) => r matches Ok(x) && x@ == b,
            Err(m) => r matches Err(x) && x@ == m,
        },
{
    let mut object = serde_json::Map::new();
    object.insert("op".to_string(), serde_json::Value::String(op.to_string()));
    object.insert("account".to_string(), serde_json::Value::String(account.to_string()));
    object.insert(
        "value".to_string(),
        match value {
            Some(v) => serde_json::Value::String(v.to_string()),
            None => serde_json::Value::Null,
        },
    );
    serde_json::to_vec(&serde_json::Value::Object(object)).map_err(|e| e.to_string())
}

/// `serde_json::from_slice` into a JSON value, and its `error` and `value`
/// fields read as `helper_reply` says.
#[verifier::external_body]
fn parse_reply(output: &[u8]) -> (r: Option<(ReplyError, Option<String>)>)
    ensures
        match r {
            None => helper_reply(output@) is None,
            Some((e, v)) => helper_reply(output@) == Some((error_view(e), opt_view(v))),
        },
{
    let response: serde_json::Value = serde_json::from_slice(output).ok()?;
    let error = match response.get("error") {
        None => ReplyError::Absent,
        Some(e) => match e.as_str() {
            Some(t) => ReplyError::Text(t.to_string()),
            None => ReplyError::Other,
        },
    };
    let value = response.get("value").and_then(|v| v.as_str()).map(|v| v.to_string());
    Some((error, value))
}

/// The bytes written to the helper: the encoded request, refused when it
/// is longer than `MAX_HELPER_MESSAGE`.
pub fn credential_input(op: &str, account: &str, value: Option<&str>) -> (r: Result<Vec<u8>, String>)
    ensures
        match request_json(op@, account@, str_view(value)) {
            Err(m) => r matches Err(x) && x@ == m,
            Ok(b) => if b.len() > MAX_HELPER_MESSAGE {
                r matches Err(x) && x@ == "Credential request too large"@
            } else {
                r matches Ok(x) && x@ == b
            },
        },
{
    let input = match encode_request(op, account, value) {
        Ok(b) => b,
        Err(e) => {
            return Err(e);
        },
    };
    match check_request(input.len()) {
        Ok(()) => Ok(input),
        Err(e) => Err(e),
    }
}

/// The answer read from the helper's output, given whether it exited
/// successfully: an oversized or unreadable reply fails; otherwise the
/// reply's fields decide as `reply_outcome` says.
pub fn reply_from_output(exit_ok: bool, output: &[u8]) -> (r: Result<Option<String>, String>)
    ensures
        output@.len() > MAX_HELPER_MESSAGE ==> (r matches Err(m) && m@ == "Keychain response too large"@),
        output@.len() <= MAX_HELPER_MESSAGE ==> match helper_reply(output@) {
            None => r matches Err(m) && m@ == "Invalid keychain helper response"@,
            Some((e, v)) => if exit_ok && e is None {
                r matches Ok(x) && opt_view(x) == v
            } else {
                r matches Err(m) && m@ == match e {
                    Some(Some(t)) => t,
                    _ => "Keychain operation failed"@,
                }
            },
        },
{
    match check_reply(output.len()) {
        Ok(()) => {},
        Err(e) => {
            return Err(e);
        },
    }
    match parse_reply(output) {
        None => Err(String::from_str("Invalid keychain helper response")),
        Some((e, v)) => reply_outcome(exit_ok, e, v),
    }
}

} // verus!
