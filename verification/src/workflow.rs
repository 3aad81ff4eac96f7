//! The ingestion and answer workflows.
//!
//! Each workflow is a pure decision process: the store is engaged through
//! the in-memory collaborator, and the downstream service's reply arrives
//! as a plain event value. The ingestion protocol engages the downstream
//! service strictly before any local write, so a record never exists
//! locally for a repository the downstream service rejected.

use vstd::prelude::*;

use crate::canon::canon_spec;
use crate::entities::ProjectEntity;
use crate::error::{Error, ValidationError};
use crate::gateway::{
    answer_field_of, classify_answer_response, classify_ingest_response, AiServiceAnswerRequest,
    AiServiceIngestRequest,
};
use crate::question::{question_ok, AnswerRequest};
use crate::strutil::trim_spec;
use crate::response::{AnswerResponse, ApiResponse, IngestResponse};
use crate::store::MemoryStore;

verus! {

/// What physically came back from a downstream call: an HTTP reply, or a
/// transport-level failure before any reply.
#[derive(Debug)]
pub enum GatewayReply {
    /// The downstream service answered with this status and body.
    Response { status: u16, body: String },
    /// The downstream service could not be reached.
    Unreachable { detail: String },
}

/// The terminal outcome of one ingestion run.
#[derive(Debug)]
pub enum IngestOutcome {
    /// The repository was ingested downstream and recorded locally.
    Created { canonical_github_url: String },
    /// A record already existed; no gateway call and no write happened.
    AlreadyExists { canonical_github_url: String },
    /// The run failed; the error says at which step and why.
    Failed(Error),
}

/// The terminal outcome of one answer run.
#[derive(Debug)]
pub enum AnswerOutcome {
    /// The downstream service answered the question.
    Answered { answer: String },
    /// The question named a repository that is not registered; no gateway
    /// call happened.
    NotFound { canonical_github_url: String },
    /// The run failed; the error says at which step and why.
    Failed(Error),
}

/// Whether the optional scope of a question names a registered project,
/// or no project at all.
pub open spec fn answer_scope_ok(ids: Seq<Seq<char>>, scope: Option<String>) -> bool {
    match scope {
        Some(u) => ids.contains(u@),
        None => true,
    }
}

/// Whether two optional scopes name the same repository.
pub open spec fn same_scope(q: Option<String>, scope: Option<String>) -> bool {
    match (q, scope) {
        (Some(a), Some(b)) => a@ == b@,
        (None, None) => true,
        _ => false,
    }
}

/// The store contents after an ingestion run: the canonical id is added
/// exactly when the reference is valid, no record existed, and the
/// downstream service acknowledged.
pub open spec fn ingest_result_ids(
    ids: Seq<Seq<char>>,
    url: Seq<char>,
    gateway_created: bool,
) -> Seq<Seq<char>> {
    match canon_spec(trim_spec(url)) {
        Some(c) => if !ids.contains(c) && gateway_created {
            ids.push(c)
        } else {
            ids
        },
        None => ids,
    }
}

/// Whether an ingestion run reaches the downstream service at all: only
/// for a valid reference with no existing record.
pub open spec fn ingest_invokes_gateway(ids: Seq<Seq<char>>, url: Seq<char>) -> bool {
    match canon_spec(trim_spec(url)) {
        Some(c) => !ids.contains(c),
        None => false,
    }
}

/// Runs the ingestion workflow against the in-memory store, with the
/// reply the downstream service gives if it is called. Returns the
/// outcome, and the request the downstream service was invoked with — or
/// `None` where it was never invoked.
pub fn ingest_with(store: &mut MemoryStore, github_url: &str, reply: GatewayReply) -> (r: (
    IngestOutcome,
    Option<AiServiceIngestRequest>,
))
    requires
        old(store).wf(),
    ensures
        final(store).wf(),
        final(store).ids() == ingest_result_ids(
            old(store).ids(),
            github_url@,
            reply matches GatewayReply::Response { status: 201u16, .. },
        ),
        r.1 is Some <==> ingest_invokes_gateway(old(store).ids(), github_url@),
        canon_spec(trim_spec(github_url@)) is None ==> (r.0 matches IngestOutcome::Failed(e)
            && e matches Error::InvalidGithubUrl(_)),
        canon_spec(trim_spec(github_url@)) matches Some(c) ==> ({
            &&& old(store).ids().contains(c) ==> (r.0 matches IngestOutcome::AlreadyExists {
                canonical_github_url: u,
            } && u@ == c)
            &&& !old(store).ids().contains(c) ==> ({
                &&& r.1 matches Some(q) && q.canonical_github_url@ == c
                &&& reply matches GatewayReply::Response { status: 201u16, .. } ==> (r.0 matches
                    IngestOutcome::Created { canonical_github_url: u } && u@ == c)
                &&& reply matches GatewayReply::Response { status, body } ==> (status != 201
                    ==> (r.0 matches IngestOutcome::Failed(e) && e matches
                    Error::UnexpectedResponse { code, body: b } && code == status && b@ == body@))
                &&& reply matches GatewayReply::Unreachable { .. } ==> (r.0 matches
                    IngestOutcome::Failed(e) && e matches Error::UpstreamUnreachable(_))
            })
        }),
{
    // validate and canonicalize; nothing else happens on a bad reference
    let project = match ProjectEntity::new_validated(github_url) {
        Err(e) => { return (IngestOutcome::Failed(e), None) },
        Ok(p) => p,
    };
    let canonical = project.github_url().clone();

    // idempotency: an existing record ends the run without a gateway call
    if store.find_by_canonical_github_url(canonical.as_str()).is_some() {
        return (IngestOutcome::AlreadyExists { canonical_github_url: canonical }, None);
    }

    // engage the downstream service strictly before any local write
    let request = AiServiceIngestRequest { canonical_github_url: canonical.clone() };
    let gate = match reply {
        GatewayReply::Response { status, body } => classify_ingest_response(status, body),
        GatewayReply::Unreachable { detail } => Err(Error::UpstreamUnreachable(detail)),
    };
    match gate {
        Err(e) => (IngestOutcome::Failed(e), Some(request)),
        Ok(()) => {
            // persist only after downstream success
            match store.create(&project) {
                Ok(()) => (IngestOutcome::Created { canonical_github_url: canonical }, Some(
                    request,
                )),
                Err(e) => (IngestOutcome::Failed(e), Some(request)),
            }
        },
    }
}

/// Runs the answer workflow: validates the question, requires the named
/// repository (if any) to be registered, and classifies the downstream
/// reply. Returns the outcome, and the request the downstream service was
/// invoked with — or `None` where it was never invoked.
pub fn answer_with(
    store: &MemoryStore,
    canonical_github_url: Option<String>,
    question: String,
    reply: GatewayReply,
) -> (r: (AnswerOutcome, Option<AiServiceAnswerRequest>))
    requires
        store.wf(),
    ensures
        !question_ok(question@) ==> (r.0 matches AnswerOutcome::Failed(e) && e matches
            Error::ValidationError(_) && r.1 is None),
        trim_spec(question@).len() == 0 ==> (r.0 matches AnswerOutcome::Failed(e) && e matches
            Error::ValidationError(ValidationError::EmptyInput(_))),
        trim_spec(question@).len() > 2000 ==> (r.0 matches AnswerOutcome::Failed(e) && e matches
            Error::ValidationError(ValidationError::InputTooLong(_))),
        question_ok(question@) ==> ({
            &&& canonical_github_url matches Some(u) ==> (!store.ids().contains(u@) ==> (r.0
                matches AnswerOutcome::NotFound { canonical_github_url: x } && x@ == u@ && r.1
                is None))
            &&& answer_scope_ok(store.ids(), canonical_github_url) ==> ({
                &&& r.1 matches Some(q) && q.user_question@ == trim_spec(question@)
                    && same_scope(q.canonical_github_url, canonical_github_url)
                &&& reply matches GatewayReply::Response { status: 200u16, body } ==> ({
                    &&& answer_field_of(body@) matches Some(a) ==> (r.0 matches
                        AnswerOutcome::Answered { answer } && answer@ == a)
                    &&& answer_field_of(body@) is None ==> (r.0 matches AnswerOutcome::Failed(e)
                        && e matches Error::UpstreamUnreachable(_))
                })
                &&& reply matches GatewayReply::Response { status, .. } ==> (status != 200 ==> (
                r.0 matches AnswerOutcome::Failed(e) && e matches Error::UnexpectedResponse {
                    code,
                    ..
                } && code == status))
                &&& reply matches GatewayReply::Unreachable { .. } ==> (r.0 matches
                    AnswerOutcome::Failed(e) && e matches Error::UpstreamUnreachable(_))
            })
        }),
{
    // validate the question; nothing else happens on a bad one
    let validated = match AnswerRequest::new(canonical_github_url, question) {
        Err(e) => { return (AnswerOutcome::Failed(e), None) },
        Ok(v) => v,
    };

    // a project-scoped question requires the project to be registered
    let project_url: Option<String> = match validated.canonical_github_url {
        Some(u) => {
            match store.find_by_canonical_github_url(u.as_str()) {
                Some(p) => Some(p.github_url().clone()),
                None => { return (AnswerOutcome::NotFound { canonical_github_url: u }, None) },
            }
        },
        None => None,
    };

    let request = AiServiceAnswerRequest {
        canonical_github_url: project_url,
        user_question: validated.question,
    };
    let gate = match reply {
        GatewayReply::Response { status, body } => classify_answer_response(status, body.as_str()),
        GatewayReply::Unreachable { detail } => Err(Error::UpstreamUnreachable(detail)),
    };
    match gate {
        Ok(answer) => (AnswerOutcome::Answered { answer }, Some(request)),
        Err(e) => (AnswerOutcome::Failed(e), Some(request)),
    }
}

/// The HTTP envelope reporting an ingestion outcome.
pub fn ingest_api_response(outcome: &IngestOutcome) -> (r: ApiResponse<IngestResponse>)
    ensures
        outcome matches IngestOutcome::Created { canonical_github_url: u } ==> (r.code == 201 && (
        r.data matches Some(d) && d.canonical_github_url@ == u@) && r.message@
            == "Project ingested successfully"@),
        outcome matches IngestOutcome::AlreadyExists { canonical_github_url: u } ==> (r.code == 409
            && (r.data matches Some(d) && d.canonical_github_url@ == u@) && r.message@
            == "Project already exists and is ready to use"@),
        outcome matches IngestOutcome::Failed(e) ==> (r.code == e.status_code_spec() && r.data
            is None && r.message@ == e.user_description_spec()),
{
    match outcome {
        IngestOutcome::Created { canonical_github_url } => ApiResponse::new(
            201,
            Some(IngestResponse { canonical_github_url: canonical_github_url.clone() }),
            "Project ingested successfully",
        ),
        IngestOutcome::AlreadyExists { canonical_github_url } => ApiResponse::new(
            409,
            Some(IngestResponse { canonical_github_url: canonical_github_url.clone() }),
            "Project already exists and is ready to use",
        ),
        IngestOutcome::Failed(e) => {
            let msg = e.user_description();
            ApiResponse::new(e.status_code(), None, msg.as_str())
        },
    }
}

/// The HTTP envelope reporting an answer outcome.
pub fn answer_api_response(outcome: &AnswerOutcome) -> (r: ApiResponse<AnswerResponse>)
    ensures
        outcome matches AnswerOutcome::Answered { answer: a } ==> (r.code == 200 && (r.data
            matches Some(d) && d.answer@ == a@) && r.message@
            == "Question answered successfully"@),
        outcome matches AnswerOutcome::NotFound { .. } ==> (r.code == 404 && r.data is None
            && r.message@ == "Project not found. Please ingest a project first."@),
        outcome matches AnswerOutcome::Failed(e) ==> (r.code == e.status_code_spec() && r.data
            is None && r.message@ == e.user_description_spec()),
{
    match outcome {
        AnswerOutcome::Answered { answer } => ApiResponse::new(
            200,
            Some(AnswerResponse { answer: answer.clone() }),
            "Question answered successfully",
        ),
        AnswerOutcome::NotFound { .. } => ApiResponse::new(
            404,
            None,
            "Project not found. Please ingest a project first.",
        ),
        AnswerOutcome::Failed(e) => {
            let msg = e.user_description();
            ApiResponse::new(e.status_code(), None, msg.as_str())
        },
    }
}

/// Ingestion is idempotent: once a run of a valid reference has created
/// its record, a second run of the same reference invokes no gateway call
/// and leaves the store exactly as it was, whatever the downstream
/// service would have replied.
pub proof fn lemma_ingest_idempotent(ids: Seq<Seq<char>>, url: Seq<char>, second_created: bool)
    requires
        canon_spec(trim_spec(url)) is Some,
    ensures
        ({
            let after = ingest_result_ids(ids, url, true);
            &&& !ingest_invokes_gateway(after, url)
            &&& ingest_result_ids(after, url, second_created) == after
        }),
{
    match canon_spec(trim_spec(url)) {
        Some(c) => {
            if !ids.contains(c) {
                assert(ids.push(c)[ids.len() as int] == c);
                assert(ids.push(c).contains(c));
            }
        },
        None => {
            assert(false);
        },
    }
}

/// Ingest-before-persist ordering: where the downstream service does not
/// acknowledge, the store is unchanged, and in particular no record exists
/// for the reference afterwards unless it existed before.
pub proof fn lemma_gateway_failure_leaves_no_record(ids: Seq<Seq<char>>, url: Seq<char>)
    ensures
        ingest_result_ids(ids, url, false) == ids,
        canon_spec(trim_spec(url)) matches Some(c) ==> (!ids.contains(c) ==> !ingest_result_ids(
            ids,
            url,
            false,
        ).contains(c)),
{
}

} // verus!
