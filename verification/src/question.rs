//! Validation of user questions: trimming, the length limit, and the ban
//! on control characters other than newline and tab.

use vstd::prelude::*;

use crate::chars::{check_forbidden_question_char, is_forbidden_question_char};
use crate::error::{Error, ValidationError};
use crate::strutil::{str_chars, trim_spec, trim_str};

verus! {

/// The longest accepted question, in characters.
pub const MAX_QUESTION_LENGTH: usize = 2000;

/// Whether a (trimmed) question holds a disallowed control character.
pub open spec fn has_forbidden_char(t: Seq<char>) -> bool {
    exists|i: int| 0 <= i < t.len() && is_forbidden_question_char(#[trigger] t[i])
}

/// A question is accepted when, after trimming, it is non-empty, within
/// the length limit, and free of disallowed control characters.
pub open spec fn question_ok(q: Seq<char>) -> bool {
    &&& trim_spec(q).len() > 0
    &&& trim_spec(q).len() <= MAX_QUESTION_LENGTH
    &&& !has_forbidden_char(trim_spec(q))
}

/// A question to ask, optionally scoped to a registered repository by its
/// canonical URL. Built by [`AnswerRequest::new`], which validates the
/// question text.
#[derive(Debug)]
pub struct AnswerRequest {
    /// The canonical repository URL the question is about, if any; absence
    /// means a general, context-free question.
    pub canonical_github_url: Option<String>,
    /// The validated, trimmed question text.
    pub question: String,
}

impl AnswerRequest {
    /// Validates the question text and builds the request: trims white
    /// space, rejects empty and over-long questions, and rejects control
    /// characters other than newline and tab.
    pub fn new(canonical_github_url: Option<String>, question: String) -> (r: Result<
        AnswerRequest,
        Error,
    >)
        ensures
            ({
                let t = trim_spec(question@);
                &&& t.len() == 0 ==> (r matches Err(e) && e matches Error::ValidationError(
                    ValidationError::EmptyInput(_),
                ))
                &&& t.len() > MAX_QUESTION_LENGTH ==> (r matches Err(e) && e matches
                    Error::ValidationError(ValidationError::InputTooLong(_)))
                &&& 0 < t.len() <= MAX_QUESTION_LENGTH && has_forbidden_char(t) ==> (r matches Err(
                    e,
                ) && e matches Error::ValidationError(ValidationError::InvalidCharacters(_)))
                &&& question_ok(question@) ==> (r matches Ok(a) && a.question@ == t
                    && a.canonical_github_url == canonical_github_url)
                &&& r is Ok <==> question_ok(question@)
            }),
    {
        let trimmed = trim_str(question.as_str());
        let t = str_chars(trimmed.as_str());
        let n = t.len();
        if n == 0 {
            return Err(
                Error::ValidationError(
                    ValidationError::EmptyInput(String::from_str("Question cannot be empty")),
                ),
            );
        }
        if n > MAX_QUESTION_LENGTH {
            return Err(
                Error::ValidationError(
                    ValidationError::InputTooLong(
                        String::from_str("Question must be 2000 characters or less"),
                    ),
                ),
            );
        }
        let mut i: usize = 0;
        while i < n
            invariant
                i <= n,
                n == t@.len(),
                t@ == trim_spec(question@),
                0 < n <= MAX_QUESTION_LENGTH,
                forall|j: int| 0 <= j < i ==> !is_forbidden_question_char(#[trigger] t@[j]),
            decreases n - i,
        {
            if check_forbidden_question_char(t[i]) {
                proof {
                    assert(is_forbidden_question_char(t@[i as int]));
                    assert(has_forbidden_char(t@));
                }
                return Err(
                    Error::ValidationError(
                        ValidationError::InvalidCharacters(
                            String::from_str("Question contains invalid control characters"),
                        ),
                    ),
                );
            }
            i += 1;
        }
        proof {
            if has_forbidden_char(t@) {
                let j = choose|j: int| 0 <= j < t@.len() && is_forbidden_question_char(
                    #[trigger] t@[j],
                );
                assert(!is_forbidden_question_char(t@[j]));
            }
        }
        Ok(AnswerRequest { canonical_github_url, question: trimmed })
    }
}

} // verus!
