use vstd::prelude::*;

verus! {

/// What a JSON body holds under `key`: none when the body is not JSON, else
/// its top-level member `key` when that is a string (none otherwise).
pub uninterp spec fn json_str_field(body: Seq<u8>, key: Seq<char>) -> Option<Option<Seq<char>>>;

/// `serde_json::from_slice` into a `serde_json::Value`, then the value's
/// member `key` (`Value`'s index by a string) read as a string (`as_str`).
/// The contract names the outcome; it is a function of the body and key alone.
#[verifier::external_body]
fn read_str_field(body: &[u8], key: &str) -> (r: Option<Option<String>>)
    ensures
        match r {
            None => json_str_field(body@, key@) == None::<Option<Seq<char>>>,
            Some(None) => json_str_field(body@, key@) == Some(None::<Seq<char>>),
            Some(Some(t)) => json_str_field(body@, key@) == Some(Some(t@)),
        },
{
    match serde_json::from_slice::<serde_json::Value>(body) {
        Ok(v) => Some(v[key].as_str().map(|s| s.to_string())),
        Err(_) => None,
    }
}

/// The value of the `Authorization` header for `api_key`.
pub fn authorization_value(api_key: &str) -> (r: String)
    ensures
        r@ == "Bearer "@ + api_key@,
{
    String::from_str("Bearer ").concat(api_key)
}

/// The error for a response with a failure status: the status line and the body.
pub fn api_error_message(status: &str, body: &str) -> (r: String)
    ensures
        r@ == "API error "@ + status@ + ": "@ + body@,
{
    String::from_str("API error ").concat(status).concat(": ").concat(body)
}

/// The transcription from what a response body holds under `"text"`: none
/// means the body was not JSON (reported as the HTTP client reports a
/// decoding error), `Some(None)` that it had no string member `"text"`.
pub fn transcription_from_field(field: Option<Option<String>>) -> (r: Result<String, String>)
    ensures
        match field {
            None => r matches Err(e) && e@ == "Failed to parse response: error decoding response body"@,
            Some(None) => r matches Err(e) && e@ == "No text in response"@,
            Some(Some(t)) => r matches Ok(s) && s@ == t@,
        },
{
    match field {
        None => Err(String::from_str("Failed to parse response: error decoding response body")),
        Some(None) => Err(String::from_str("No text in response")),
        Some(Some(t)) => Ok(t),
    }
}

/// The transcription in a successful response body: its JSON `"text"` member.
pub fn parse_transcription(body: &[u8]) -> (r: Result<String, String>)
    ensures
        match json_str_field(body@, "text"@) {
            None => r matches Err(e) && e@ == "Failed to parse response: error decoding response body"@,
            Some(None) => r matches Err(e) && e@ == "No text in response"@,
            Some(Some(t)) => r matches Ok(s) && s@ == t,
        },
{
    transcription_from_field(read_str_field(body, "text"))
}

} // verus!
