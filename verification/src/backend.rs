use vstd::prelude::*;

use crate::dispatch::BackendError;

verus! {

/// Whether a text is one well-formed JSON document. What
/// serde_json::from_str accepts depends on its input alone, so the
/// outcome bears a name.
pub uninterp spec fn body_is_json(s: Seq<char>) -> bool;

/// The text under `content[0].text` of the JSON document that `s`
/// denotes — the shape of a message-style reply — or `None` when that
/// place holds no string. A function of the document, hence of `s`
/// alone.
pub uninterp spec fn message_payload_of(s: Seq<char>) -> Option<Seq<char>>;

/// The text under `choices[0].message.content` of the JSON document
/// that `s` denotes — the shape of a chat-completion reply — or `None`
/// when that place holds no string.
pub uninterp spec fn chat_payload_of(s: Seq<char>) -> Option<Seq<char>>;

/// Relies on serde_json::from_str::<Value>: it accepts a text exactly
/// when the text is one well-formed JSON document, and returns `Err`
/// rather than panicking on any other input.
#[verifier::external_body]
fn json_wellformed(body: &str) -> (r: bool)
    ensures
        r == body_is_json(body@),
{
    serde_json::from_str::<serde_json::Value>(body).is_ok()
}

/// Relies on serde_json::from_str::<Value>, Value::get (string and
/// usize index) and Value::as_str: parses the body and walks to
/// `content[0].text`; every step returns `None` rather than panicking
/// when the place it looks at is absent or of another kind.
#[verifier::external_body]
fn message_payload(body: &str) -> (r: Option<String>)
    ensures
        body_is_json(body@) ==> match message_payload_of(body@) {
            Some(s) => r matches Some(t) && t@ == s,
            None => r is None,
        },
{
    let v: serde_json::Value = serde_json::from_str(body).ok()?;
    v.get("content")
        .and_then(|content| content.get(0))
        .and_then(|first| first.get("text"))
        .and_then(|text| text.as_str())
        .map(String::from)
}

/// Relies on serde_json::from_str::<Value>, Value::get and
/// Value::as_str: parses the body and walks to
/// `choices[0].message.content`, `None` when any step finds nothing or
/// the end is not a string.
#[verifier::external_body]
fn chat_payload(body: &str) -> (r: Option<String>)
    ensures
        body_is_json(body@) ==> match chat_payload_of(body@) {
            Some(s) => r matches Some(t) && t@ == s,
            None => r is None,
        },
{
    let v: serde_json::Value = serde_json::from_str(body).ok()?;
    v.get("choices")
        .and_then(|choices| choices.get(0))
        .and_then(|choice| choice.get("message"))
        .and_then(|message| message.get("content"))
        .and_then(|content| content.as_str())
        .map(String::from)
}

/// A success HTTP status code: the 2xx range.
pub open spec fn spec_status_success(status: int) -> bool {
    200 <= status < 300
}

/// Accepts a success status and turns any other into the status failure
/// that carries the code.
pub fn check_status(status: u16) -> (r: Result<(), BackendError>)
    ensures
        r is Ok <==> spec_status_success(status as int),
        !spec_status_success(status as int) ==> r == Result::<(), BackendError>::Err(
            BackendError::Status(status),
        ),
{
    if 200 <= status && status < 300 {
        Ok(())
    } else {
        Err(BackendError::Status(status))
    }
}

/// Judges one message-endpoint reply from its status and body: on a
/// non-success status, exactly the status failure with that code; on a
/// success status, exactly the malformed failure when the body is not
/// JSON; otherwise the text under `content[0].text` when the body holds
/// one, and exactly the missing-field failure when it does not. Never a
/// transport failure: that is the caller's to report, for a request
/// that got no reply at all.
pub fn claude_text_from_response(status: u16, body: &str) -> (r: Result<String, BackendError>)
    ensures
        !spec_status_success(status as int) ==> r == Result::<String, BackendError>::Err(
            BackendError::Status(status),
        ),
        spec_status_success(status as int) && !body_is_json(body@) ==> r == Result::<
            String,
            BackendError,
        >::Err(BackendError::MalformedResponse),
        spec_status_success(status as int) && body_is_json(body@) ==> match message_payload_of(
            body@,
        ) {
            Some(s) => r matches Ok(t) && t@ == s,
            None => r == Result::<String, BackendError>::Err(BackendError::MissingField),
        },
{
    match check_status(status) {
        Err(e) => Err(e),
        Ok(()) => {
            if !json_wellformed(body) {
                Err(BackendError::MalformedResponse)
            } else {
                match message_payload(body) {
                    Some(t) => Ok(t),
                    None => Err(BackendError::MissingField),
                }
            }
        },
    }
}

/// Judges one chat-completion reply from its status and body, as
/// `claude_text_from_response` does, with the text expected under
/// `choices[0].message.content`.
pub fn open_ai_text_from_response(status: u16, body: &str) -> (r: Result<String, BackendError>)
    ensures
        !spec_status_success(status as int) ==> r == Result::<String, BackendError>::Err(
            BackendError::Status(status),
        ),
        spec_status_success(status as int) && !body_is_json(body@) ==> r == Result::<
            String,
            BackendError,
        >::Err(BackendError::MalformedResponse),
        spec_status_success(status as int) && body_is_json(body@) ==> match chat_payload_of(
            body@,
        ) {
            Some(s) => r matches Ok(t) && t@ == s,
            None => r == Result::<String, BackendError>::Err(BackendError::MissingField),
        },
{
    match check_status(status) {
        Err(e) => Err(e),
        Ok(()) => {
            if !json_wellformed(body) {
                Err(BackendError::MalformedResponse)
            } else {
                match chat_payload(body) {
                    Some(t) => Ok(t),
                    None => Err(BackendError::MissingField),
                }
            }
        },
    }
}

} // verus!
