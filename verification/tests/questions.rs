//! Tests of question validation.

use backend::error::{Error, ValidationError};
use backend::question::AnswerRequest;
use backend::response::AnswerQuery;

fn test_url() -> String {
    "https://github.com/owner/repo.git".to_string()
}

#[test]
fn test_general_question_empty_validation() {
    let result = AnswerRequest::new(None, "".to_string());

    assert!(matches!(
        result.unwrap_err(),
        Error::ValidationError(ValidationError::EmptyInput(_))
    ));
}

#[test]
fn test_valid_questions() {
    let cases = [
        "Valid question",
        "What is this repository about?",
        "How does the authentication work?\nCan you explain?",
        "Question with\ttabs",
        "  Valid question with spaces  ",
        "\n\tQuestion with whitespace\n\t",
        "   Multiple   spaces   inside   ",
    ];
    for question in cases {
        let request = AnswerRequest::new(Some(test_url()), question.to_string()).unwrap();
        assert_eq!(request.question, question.trim(), "input {:?}", question);
        assert_eq!(request.canonical_github_url, Some(test_url()));
    }
    let at_limit = "a".repeat(2000);
    let request = AnswerRequest::new(Some(test_url()), at_limit.clone()).unwrap();
    assert_eq!(request.question, at_limit);
}

#[test]
fn test_empty_input_validation() {
    for question in ["", "   ", "\n\t  \n"] {
        let result = AnswerRequest::new(Some(test_url()), question.to_string());
        assert!(
            matches!(
                result.unwrap_err(),
                Error::ValidationError(ValidationError::EmptyInput(_))
            ),
            "input {:?}",
            question
        );
    }
}

#[test]
fn test_length_validation() {
    for question in ["a".repeat(2001), "a".repeat(5000)] {
        let result = AnswerRequest::new(Some(test_url()), question.clone());
        assert!(
            matches!(
                result.unwrap_err(),
                Error::ValidationError(ValidationError::InputTooLong(_))
            ),
            "length {}",
            question.len()
        );
    }
}

#[test]
fn test_control_character_validation() {
    let cases = [
        "Question with \x00 null byte",
        "Question with \x01 control char",
        "Question with \x1F control char",
        "Question with \x7F delete char",
    ];
    for question in cases {
        let result = AnswerRequest::new(Some(test_url()), question.to_string());
        assert!(
            matches!(
                result.unwrap_err(),
                Error::ValidationError(ValidationError::InvalidCharacters(_))
            ),
            "input {:?}",
            question
        );
    }
}

#[test]
fn test_general_questions() {
    let cases = [
        "General programming question",
        "What are best practices for Rust?",
        "How do I implement a REST API?",
    ];
    for question in cases {
        let request = AnswerRequest::new(None, question.to_string()).unwrap();
        assert_eq!(request.question, question.trim());
        assert_eq!(request.canonical_github_url, None);
    }
}

#[test]
fn test_question_boundary() {
    // exactly 2000 characters is accepted, 2001 is not
    assert!(AnswerRequest::new(None, "q".repeat(2000)).is_ok());
    assert!(matches!(
        AnswerRequest::new(None, "q".repeat(2001)).unwrap_err(),
        Error::ValidationError(ValidationError::InputTooLong(_))
    ));
    // trailing whitespace does not count against the limit
    let padded = format!("  {}  ", "q".repeat(2000));
    assert!(AnswerRequest::new(None, padded).is_ok());
    // newline and tab surrounded by text are fine
    assert!(AnswerRequest::new(None, "before\nafter\tend".to_string()).is_ok());
}

#[test]
fn test_answer_query_carries_url() {
    let query = AnswerQuery {
        github_url: "https://github.com/owner/repo.git".to_string(),
    };
    assert_eq!(query.github_url, "https://github.com/owner/repo.git");
}
