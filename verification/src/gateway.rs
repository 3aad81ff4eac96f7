//! Classification of the downstream analysis service's replies.
//!
//! The transport lives outside the library; these functions take the
//! status and body of a reply as plain values and decide the typed result:
//! an ingest call succeeds only on the explicit created status, an answer
//! call only on the explicit ok status with a body carrying the answer.

use vstd::prelude::*;

use crate::error::Error;

verus! {

/// The wire payload of a downstream ingest call.
#[derive(Debug)]
pub struct AiServiceIngestRequest {
    /// The canonical repository URL to ingest.
    pub canonical_github_url: String,
}

/// The wire payload of a downstream answer call.
#[derive(Debug)]
pub struct AiServiceAnswerRequest {
    /// The canonical repository URL giving the question its context, if any.
    pub canonical_github_url: Option<String>,
    /// The user's question.
    pub user_question: String,
}

/// The `answer` string field of `body` read as a JSON document, if `body`
/// is a JSON object carrying one.
pub uninterp spec fn answer_field_of(body: Seq<char>) -> Option<Seq<char>>;

/// Relies on `serde_json::from_str`: whether the body parses as a JSON
/// object with a string field `answer`, and that field's text, both
/// depend on the body text alone.
#[verifier::external_body]
fn extract_answer_field(body: &str) -> (r: Option<String>)
    ensures
        r is Some <==> answer_field_of(body@) is Some,
        r matches Some(a) ==> answer_field_of(body@) == Some(a@),
{
    match serde_json::from_str::<serde_json::Value>(body) {
        Ok(v) => v.get("answer").and_then(|a| a.as_str()).map(|s| s.to_string()),
        Err(_) => None,
    }
}

/// Classifies the reply to an ingest call: only the created status (201)
/// is success; any other status is an upstream rejection carrying the
/// body for diagnostics.
pub fn classify_ingest_response(status: u16, body: String) -> (r: Result<(), Error>)
    ensures
        r is Ok <==> status == 201,
        status != 201 ==> (r matches Err(e) && e matches Error::UnexpectedResponse {
            code,
            body: b,
        } && code == status && b@ == body@),
{
    if status == 201 {
        Ok(())
    } else {
        Err(Error::UnexpectedResponse { code: status, body })
    }
}

/// Turns the extracted answer field into the call's result: a missing or
/// malformed answer document is a protocol violation, reported as an
/// upstream transport fault.
pub fn answer_from_field(parsed: Option<String>) -> (r: Result<String, Error>)
    ensures
        parsed matches Some(a) ==> (r matches Ok(x) && x == a),
        parsed is None ==> (r matches Err(e) && e matches Error::UpstreamUnreachable(_)),
{
    match parsed {
        Some(a) => Ok(a),
        None => Err(
            Error::UpstreamUnreachable(
                String::from_str("answer response body did not carry an answer"),
            ),
        ),
    }
}

/// Classifies the reply to an answer call: only the ok status (200) with
/// a body whose JSON carries the answer text is success.
pub fn classify_answer_response(status: u16, body: &str) -> (r: Result<String, Error>)
    ensures
        status != 200 ==> (r matches Err(e) && e matches Error::UnexpectedResponse {
            code,
            body: b,
        } && code == status && b@ == body@),
        status == 200 ==> ({
            &&& answer_field_of(body@) is None ==> (r matches Err(e) && e matches
                Error::UpstreamUnreachable(_))
            &&& answer_field_of(body@) matches Some(a) ==> (r matches Ok(x) && x@ == a)
        }),
{
    if status != 200 {
        return Err(Error::UnexpectedResponse { code: status, body: body.to_owned() });
    }
    let parsed = extract_answer_field(body);
    answer_from_field(parsed)
}

} // verus!
