//! Tests of the ingestion and answer workflows, run against the in-memory
//! store with scripted downstream replies.

use backend::entities::ProjectEntity;
use backend::error::{Error, ValidationError};
use backend::gateway::{classify_answer_response, classify_ingest_response};
use backend::response::ApiResponse;
use backend::store::MemoryStore;
use backend::workflow::{
    answer_api_response, answer_with, ingest_api_response, ingest_with, AnswerOutcome,
    GatewayReply, IngestOutcome,
};

fn created_reply() -> GatewayReply {
    GatewayReply::Response {
        status: 201,
        body: String::new(),
    }
}

fn answer_reply(body: &str) -> GatewayReply {
    GatewayReply::Response {
        status: 200,
        body: body.to_string(),
    }
}

#[test]
fn test_ingest_end_to_end() {
    let mut store = MemoryStore::new();
    let raw = "https://github.com/TestOwner/TestRepo";
    let canonical = "https://github.com/testowner/testrepo.git";

    let (outcome, request) = ingest_with(&mut store, raw, created_reply());

    // the gateway was invoked with exactly the canonical identifier
    assert_eq!(request.unwrap().canonical_github_url, canonical);
    match outcome {
        IngestOutcome::Created {
            ref canonical_github_url,
        } => assert_eq!(canonical_github_url, canonical),
        ref other => panic!("expected Created, got {:?}", other),
    }
    // a store lookup by the canonical identifier returns the record
    let found = store.find_by_canonical_github_url(canonical).unwrap();
    assert_eq!(found.github_url().as_str(), canonical);
    assert_eq!(store.len(), 1);

    let response = ingest_api_response(&outcome);
    assert_eq!(response.code, 201);
    assert_eq!(response.message, "Project ingested successfully");
    assert_eq!(response.data.unwrap().canonical_github_url, canonical);
}

#[test]
fn test_ingest_idempotent() {
    let mut store = MemoryStore::new();
    let raw = "https://github.com/Already/Exists";
    let canonical = "https://github.com/already/exists.git";

    let (first, first_request) = ingest_with(&mut store, raw, created_reply());
    assert!(matches!(first, IngestOutcome::Created { .. }));
    assert!(first_request.is_some());

    // the second run reports "already exists" and never reaches the gateway
    let (second, second_request) = ingest_with(&mut store, raw, created_reply());
    assert!(second_request.is_none());
    match second {
        IngestOutcome::AlreadyExists {
            ref canonical_github_url,
        } => assert_eq!(canonical_github_url, canonical),
        ref other => panic!("expected AlreadyExists, got {:?}", other),
    }
    // exactly one record exists
    assert_eq!(store.len(), 1);

    let response = ingest_api_response(&second);
    assert_eq!(response.code, 409);
    assert_eq!(response.message, "Project already exists and is ready to use");
}

#[test]
fn test_ingest_invalid_url_touches_nothing() {
    let mut store = MemoryStore::new();
    let (outcome, request) = ingest_with(&mut store, "https://gitlab.com/owner/repo", created_reply());
    assert!(request.is_none());
    match outcome {
        IngestOutcome::Failed(ref e) => assert!(matches!(e, Error::InvalidGithubUrl(_))),
        ref other => panic!("expected Failed, got {:?}", other),
    }
    assert_eq!(store.len(), 0);

    let response = ingest_api_response(&outcome);
    assert_eq!(response.code, 400);
    assert!(response.message.starts_with("Invalid GitHub URL:"));
    assert!(response.data.is_none());
}

#[test]
fn test_ingest_gateway_rejection_leaves_no_record() {
    let mut store = MemoryStore::new();
    let raw = "https://github.com/TestOwner/TestRepo";
    let reply = GatewayReply::Response {
        status: 500,
        body: "upstream broke".to_string(),
    };

    let (outcome, request) = ingest_with(&mut store, raw, reply);
    assert!(request.is_some());
    match outcome {
        IngestOutcome::Failed(Error::UnexpectedResponse { code, ref body }) => {
            assert_eq!(code, 500);
            assert_eq!(body, "upstream broke");
        }
        ref other => panic!("expected UnexpectedResponse, got {:?}", other),
    }
    // no record exists after the gateway failure
    assert!(store
        .find_by_canonical_github_url("https://github.com/testowner/testrepo.git")
        .is_none());
    assert_eq!(store.len(), 0);

    let response = ingest_api_response(&outcome);
    assert_eq!(response.code, 500);
    assert_eq!(response.message, "Internal server error");
}

#[test]
fn test_ingest_gateway_unreachable_leaves_no_record() {
    let mut store = MemoryStore::new();
    let reply = GatewayReply::Unreachable {
        detail: "connection refused".to_string(),
    };
    let (outcome, _) = ingest_with(&mut store, "https://github.com/TestOwner/TestRepo", reply);
    assert!(matches!(
        outcome,
        IngestOutcome::Failed(Error::UpstreamUnreachable(_))
    ));
    assert_eq!(store.len(), 0);

    let response = ingest_api_response(&outcome);
    assert_eq!(response.code, 502);
    assert_eq!(
        response.message,
        "Upstream service error; please try again later"
    );
}

#[test]
fn test_answer_question_success() {
    let mut store = MemoryStore::new();
    let canonical = "https://github.com/testowner/testrepo.git";
    ingest_with(
        &mut store,
        "https://github.com/testowner/testrepo.git",
        created_reply(),
    );

    let (outcome, request) = answer_with(
        &store,
        Some(canonical.to_string()),
        "What is this repository about?".to_string(),
        answer_reply("{\"answer\":\"It is a test repository\"}"),
    );
    let request = request.unwrap();
    assert_eq!(request.canonical_github_url.as_deref(), Some(canonical));
    assert_eq!(request.user_question, "What is this repository about?");
    match outcome {
        AnswerOutcome::Answered { ref answer } => assert_eq!(answer, "It is a test repository"),
        ref other => panic!("expected Answered, got {:?}", other),
    }

    let response = answer_api_response(&outcome);
    assert_eq!(response.code, 200);
    assert_eq!(response.message, "Question answered successfully");
    assert_eq!(response.data.unwrap().answer, "It is a test repository");
}

#[test]
fn test_answer_question_project_not_found() {
    let store = MemoryStore::new();
    let (outcome, request) = answer_with(
        &store,
        Some("https://github.com/nonexistent/repo.git".to_string()),
        "What is this repository about?".to_string(),
        answer_reply("{\"answer\":\"never used\"}"),
    );
    // no gateway call happens for an unregistered project
    assert!(request.is_none());
    match outcome {
        AnswerOutcome::NotFound {
            ref canonical_github_url,
        } => assert_eq!(canonical_github_url, "https://github.com/nonexistent/repo.git"),
        ref other => panic!("expected NotFound, got {:?}", other),
    }

    let response = answer_api_response(&outcome);
    assert_eq!(response.code, 404);
    assert_eq!(
        response.message,
        "Project not found. Please ingest a project first."
    );
}

#[test]
fn test_answer_question_invalid_input() {
    let store = MemoryStore::new();
    let (outcome, request) = answer_with(
        &store,
        Some("https://github.com/testowner/testrepo.git".to_string()),
        "   ".to_string(),
        answer_reply("{\"answer\":\"never used\"}"),
    );
    assert!(request.is_none());
    assert!(matches!(
        outcome,
        AnswerOutcome::Failed(Error::ValidationError(ValidationError::EmptyInput(_)))
    ));
    let response = answer_api_response(&outcome);
    assert_eq!(response.code, 400);
}

#[test]
fn test_answer_general_question() {
    let store = MemoryStore::new();
    let (outcome, request) = answer_with(
        &store,
        None,
        "What are best practices for Rust?".to_string(),
        answer_reply("{\"answer\":\"Read the book\"}"),
    );
    let request = request.unwrap();
    assert_eq!(request.canonical_github_url, None);
    assert!(matches!(outcome, AnswerOutcome::Answered { .. }));
}

#[test]
fn test_answer_question_upstream_error() {
    let mut store = MemoryStore::new();
    ingest_with(
        &mut store,
        "https://github.com/testowner/testrepo.git",
        created_reply(),
    );
    let (outcome, _) = answer_with(
        &store,
        Some("https://github.com/testowner/testrepo.git".to_string()),
        "What is this repository about?".to_string(),
        GatewayReply::Response {
            status: 503,
            body: "overloaded".to_string(),
        },
    );
    assert!(matches!(
        outcome,
        AnswerOutcome::Failed(Error::UnexpectedResponse { code: 503, .. })
    ));
    let response = answer_api_response(&outcome);
    assert_eq!(response.code, 500);
    assert_eq!(response.message, "Internal server error");
}

#[test]
fn test_answer_question_upstream_unreachable() {
    let mut store = MemoryStore::new();
    ingest_with(
        &mut store,
        "https://github.com/testowner/testrepo.git",
        created_reply(),
    );
    let (outcome, _) = answer_with(
        &store,
        Some("https://github.com/testowner/testrepo.git".to_string()),
        "What is this repository about?".to_string(),
        GatewayReply::Unreachable {
            detail: "dns failure".to_string(),
        },
    );
    assert!(matches!(
        outcome,
        AnswerOutcome::Failed(Error::UpstreamUnreachable(_))
    ));
    let response = answer_api_response(&outcome);
    assert_eq!(response.code, 502);
    assert_eq!(
        response.message,
        "Upstream service error; please try again later"
    );
}

#[test]
fn test_answer_malformed_body_is_protocol_violation() {
    let mut store = MemoryStore::new();
    ingest_with(
        &mut store,
        "https://github.com/testowner/testrepo.git",
        created_reply(),
    );
    for body in ["not json at all", "{}", "{\"answer\": 17}", "[\"answer\"]"] {
        let (outcome, _) = answer_with(
            &store,
            Some("https://github.com/testowner/testrepo.git".to_string()),
            "What is this repository about?".to_string(),
            answer_reply(body),
        );
        assert!(
            matches!(outcome, AnswerOutcome::Failed(Error::UpstreamUnreachable(_))),
            "body {:?}",
            body
        );
    }
}

#[test]
fn test_classify_ingest_response() {
    assert!(classify_ingest_response(201, String::new()).is_ok());
    match classify_ingest_response(409, "busy".to_string()).unwrap_err() {
        Error::UnexpectedResponse { code, body } => {
            assert_eq!(code, 409);
            assert_eq!(body, "busy");
        }
        other => panic!("expected UnexpectedResponse, got {:?}", other),
    }
    // a plain 200 is not the expected created status
    assert!(classify_ingest_response(200, String::new()).is_err());
}

#[test]
fn test_classify_answer_response() {
    // the answer is decoded from the JSON body, not echoed from it
    assert_eq!(
        classify_answer_response(200, "{\"answer\":\"hello\"}").unwrap(),
        "hello"
    );
    assert!(matches!(
        classify_answer_response(200, "no json").unwrap_err(),
        Error::UpstreamUnreachable(_)
    ));
    assert!(matches!(
        classify_answer_response(404, "{\"answer\":\"hello\"}").unwrap_err(),
        Error::UnexpectedResponse { code: 404, .. }
    ));
}

#[test]
fn test_error_status_codes_and_descriptions() {
    let invalid = Error::InvalidGithubUrl("URL scheme must be https".to_string());
    assert_eq!(invalid.status_code(), 400);
    assert_eq!(
        invalid.user_description(),
        "Invalid GitHub URL: URL scheme must be https"
    );

    let not_found = Error::ProjectNotFound("https://github.com/a/b.git".to_string());
    assert_eq!(not_found.status_code(), 404);
    assert_eq!(
        not_found.user_description(),
        "Project not found: https://github.com/a/b.git"
    );

    let validation =
        Error::ValidationError(ValidationError::EmptyInput("Question cannot be empty".to_string()));
    assert_eq!(validation.status_code(), 400);
    assert_eq!(
        validation.user_description(),
        "Empty input: Question cannot be empty"
    );

    let unexpected = Error::UnexpectedResponse {
        code: 500,
        body: "secret detail".to_string(),
    };
    assert_eq!(unexpected.status_code(), 500);
    assert_eq!(unexpected.user_description(), "Internal server error");

    let unreachable = Error::UpstreamUnreachable("connect timeout".to_string());
    assert_eq!(unreachable.status_code(), 502);
    assert_eq!(
        unreachable.user_description(),
        "Upstream service error; please try again later"
    );

    let infra = Error::InfrastructureFault("db down".to_string());
    assert_eq!(infra.status_code(), 500);
    assert_eq!(infra.user_description(), "Internal server error");
}

#[test]
fn test_store_uniqueness_conflict_is_infrastructure_fault() {
    let mut store = MemoryStore::new();
    let p = ProjectEntity::new_validated("https://github.com/owner/repo").unwrap();
    assert!(store.create(&p).is_ok());
    let q = ProjectEntity::new_validated("https://github.com/Owner/Repo/").unwrap();
    assert!(matches!(
        store.create(&q).unwrap_err(),
        Error::InfrastructureFault(_)
    ));
    assert_eq!(store.len(), 1);
}

#[test]
fn test_api_response_new() {
    let response: ApiResponse<()> = ApiResponse::new(200, None, "API is healthy");
    assert_eq!(response.code, 200);
    assert!(response.data.is_none());
    assert_eq!(response.message, "API is healthy");
}
