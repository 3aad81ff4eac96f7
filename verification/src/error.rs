//! The error taxonomy of the library and its mapping to user-facing
//! messages and HTTP status codes.
//!
//! Only the messages of [`Error::InvalidGithubUrl`], [`Error::ProjectNotFound`]
//! and [`Error::ValidationError`] are echoed verbatim to callers; every other
//! kind collapses to a generic message so that internal detail never leaks.

use vstd::prelude::*;

verus! {

/// Validation faults of a user-supplied question.
#[derive(Debug)]
pub enum ValidationError {
    /// The input was empty or whitespace-only.
    EmptyInput(String),
    /// The input exceeded the length limit.
    InputTooLong(String),
    /// The input held a disallowed control character.
    InvalidCharacters(String),
}

/// Everything that can go wrong while serving a request.
#[derive(Debug)]
pub enum Error {
    /// A repository identifier was rejected; the message names the rule
    /// that was violated.
    InvalidGithubUrl(String),
    /// A project-scoped question named a repository that is not registered.
    ProjectNotFound(String),
    /// A question failed validation.
    ValidationError(ValidationError),
    /// The downstream analysis service answered with a status other than
    /// the expected one; the body is kept for diagnostics.
    UnexpectedResponse { code: u16, body: String },
    /// The downstream analysis service could not be reached at the
    /// transport level.
    UpstreamUnreachable(String),
    /// The persistent store failed.
    InfrastructureFault(String),
}

impl ValidationError {
    /// The user-facing description of the fault.
    pub open spec fn description_spec(&self) -> Seq<char> {
        match self {
            ValidationError::EmptyInput(m) => "Empty input: "@ + m@,
            ValidationError::InputTooLong(m) => "Input too long: "@ + m@,
            ValidationError::InvalidCharacters(m) => "Invalid characters: "@ + m@,
        }
    }

    /// Renders [`Self::description_spec`].
    pub fn description(&self) -> (r: String)
        ensures
            r@ == self.description_spec(),
    {
        match self {
            ValidationError::EmptyInput(m) => String::from_str("Empty input: ").concat(m.as_str()),
            ValidationError::InputTooLong(m) => String::from_str("Input too long: ").concat(
                m.as_str(),
            ),
            ValidationError::InvalidCharacters(m) => String::from_str(
                "Invalid characters: ",
            ).concat(m.as_str()),
        }
    }
}

impl Error {
    /// The HTTP status code that a response reporting this error carries.
    pub open spec fn status_code_spec(&self) -> u16 {
        match self {
            Error::InvalidGithubUrl(_) => 400,
            Error::ProjectNotFound(_) => 404,
            Error::ValidationError(_) => 400,
            Error::UnexpectedResponse { .. } => 500,
            Error::UpstreamUnreachable(_) => 502,
            Error::InfrastructureFault(_) => 500,
        }
    }

    /// Computes [`Self::status_code_spec`].
    pub fn status_code(&self) -> (r: u16)
        ensures
            r == self.status_code_spec(),
    {
        match self {
            Error::InvalidGithubUrl(_) => 400,
            Error::ProjectNotFound(_) => 404,
            Error::ValidationError(_) => 400,
            Error::UnexpectedResponse { .. } => 500,
            Error::UpstreamUnreachable(_) => 502,
            Error::InfrastructureFault(_) => 500,
        }
    }

    /// The message shown to the caller. Validation and not-found errors are
    /// echoed in full; upstream and store faults collapse to a generic text.
    pub open spec fn user_description_spec(&self) -> Seq<char> {
        match self {
            Error::InvalidGithubUrl(m) => "Invalid GitHub URL: "@ + m@,
            Error::ProjectNotFound(m) => "Project not found: "@ + m@,
            Error::ValidationError(v) => v.description_spec(),
            Error::UnexpectedResponse { .. } => "Internal server error"@,
            Error::UpstreamUnreachable(_) => "Upstream service error; please try again later"@,
            Error::InfrastructureFault(_) => "Internal server error"@,
        }
    }

    /// Renders [`Self::user_description_spec`].
    pub fn user_description(&self) -> (r: String)
        ensures
            r@ == self.user_description_spec(),
    {
        match self {
            Error::InvalidGithubUrl(m) => String::from_str("Invalid GitHub URL: ").concat(
                m.as_str(),
            ),
            Error::ProjectNotFound(m) => String::from_str("Project not found: ").concat(m.as_str()),
            Error::ValidationError(v) => v.description(),
            Error::UnexpectedResponse { .. } => String::from_str("Internal server error"),
            Error::UpstreamUnreachable(_) => String::from_str(
                "Upstream service error; please try again later",
            ),
            Error::InfrastructureFault(_) => String::from_str("Internal server error"),
        }
    }
}

} // verus!
