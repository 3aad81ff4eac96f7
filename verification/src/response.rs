//! The uniform response envelope and the plain request and response
//! payloads of the public surface.

use vstd::prelude::*;

verus! {

/// Unified API response: a status code, an optional payload, and a
/// human-readable message.
#[derive(Debug)]
pub struct ApiResponse<T> {
    /// HTTP status code.
    pub code: u16,
    /// Optional data payload.
    pub data: Option<T>,
    /// Human-readable message.
    pub message: String,
}

impl<T> ApiResponse<T> {
    /// Builds a response carrying exactly the given parts.
    pub fn new(code: u16, data: Option<T>, message: &str) -> (r: Self)
        ensures
            r.code == code,
            r.data == data,
            r.message@ == message@,
    {
        ApiResponse { code, data, message: message.to_owned() }
    }
}

/// Request to ingest a GitHub repository.
#[derive(Debug)]
pub struct IngestRequest {
    /// The GitHub repository URL to ingest.
    pub github_url: String,
}

/// Response from successful repository ingestion.
#[derive(Debug)]
pub struct IngestResponse {
    /// The canonical repository URL, always of the shape
    /// `https://github.com/{owner}/{repo}.git`.
    pub canonical_github_url: String,
}

/// Response carrying the generated answer to a question.
#[derive(Debug)]
pub struct AnswerResponse {
    /// The answer to the user's question.
    pub answer: String,
}

/// Query parameters naming the repository a question is about.
#[derive(Debug)]
pub struct AnswerQuery {
    /// The repository URL the question refers to.
    pub github_url: String,
}

} // verus!
