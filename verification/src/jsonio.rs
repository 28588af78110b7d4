use vstd::prelude::*;

verus! {

#[verifier::external_type_specification]
#[verifier::external_body]
pub struct ExSerdeJsonError(serde_json::Error);

/// What a JSON lookup of a top-level string field yields on `body`:
/// whether `body` parses as JSON at all, and, if so, the value of the
/// string field named `key` (absent or non-string gives `None`).
/// Parsing and lookup depend on the text alone.
pub uninterp spec fn json_string_field(body: Seq<char>, key: Seq<char>) -> (bool, Option<
    Seq<char>,
>);

/// Relies on serde_json::from_str::<Value>, Value::get and Value::as_str:
/// parses `body` as JSON and reads its top-level string field `key`.
#[verifier::external_body]
pub fn read_string_field(body: &str, key: &str) -> (r: Result<Option<String>, serde_json::Error>)
    ensures
        (r is Ok) == json_string_field(body@, key@).0,
        r matches Ok(o) ==> o.deep_view() == json_string_field(body@, key@).1,
{
    match serde_json::from_str::<serde_json::Value>(body) {
        Ok(v) => Ok(v.get(key).and_then(|f| f.as_str()).map(|s| s.to_string())),
        Err(e) => Err(e),
    }
}

/// What a completion response body holds, as read by one JSON parse:
/// in order, whether the body parses as JSON; whether it holds a
/// top-level `error` member; the string at `error.message`; the string
/// at `choices[0].message.content`; and the string at `choices[0].text`.
/// Each string is `None` where the path is absent or not a string.
/// All five depend on the text alone.
pub uninterp spec fn completion_fields_of(body: Seq<char>) -> (
    bool,
    bool,
    Option<Seq<char>>,
    Option<Seq<char>>,
    Option<Seq<char>>,
);

/// The fields of a completion response that the driver reads.
pub struct CompletionFields {
    pub has_error: bool,
    pub error_message: Option<String>,
    pub chat_content: Option<String>,
    pub legacy_text: Option<String>,
}

/// Relies on serde_json::from_str::<Value>, Value::get and Value::as_str:
/// parses `body` as JSON and reads the members a completion response
/// can carry.
#[verifier::external_body]
pub fn read_completion_fields(body: &str) -> (r: Result<CompletionFields, serde_json::Error>)
    ensures
        (r is Ok) == completion_fields_of(body@).0,
        r matches Ok(f) ==> f.has_error == completion_fields_of(body@).1,
        r matches Ok(f) ==> f.error_message.deep_view() == completion_fields_of(body@).2,
        r matches Ok(f) ==> f.chat_content.deep_view() == completion_fields_of(body@).3,
        r matches Ok(f) ==> f.legacy_text.deep_view() == completion_fields_of(body@).4,
{
    let v: serde_json::Value = match serde_json::from_str(body) {
        Ok(v) => v,
        Err(e) => return Err(e),
    };
    let choice = v.get("choices").and_then(|c| c.get(0));
    Ok(CompletionFields {
        has_error: v.get("error").is_some(),
        error_message: v.get("error").and_then(|e| e.get("message")).and_then(|m| m.as_str()).map(String::from),
        chat_content: choice.and_then(|c| c.get("message")).and_then(|m| m.get("content")).and_then(|s| s.as_str()).map(String::from),
        legacy_text: choice.and_then(|c| c.get("text")).and_then(|s| s.as_str()).map(String::from),
    })
}

} // verus!
