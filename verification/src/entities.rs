//! The project entity: a validated, canonical GitHub repository URL.

use vstd::prelude::*;

use crate::canon::{
    canon_spec, canonicalize, lemma_canonicalize_idempotent, valid_owner_seq, valid_repo_seq,
    validate_owner_chars, validate_repo_chars,
};
use crate::error::Error;
use crate::strutil::{str_chars, trim_spec};

verus! {

/// A project entity holding a canonical GitHub repository URL of the shape
/// `https://github.com/{owner}/{repo}.git`, all lower-case.
///
/// The field is private and the validating constructor is the only way to
/// obtain an entity, so every entity in circulation is well-formed.
#[derive(Debug)]
pub struct ProjectEntity {
    github_url: String,
}

impl ProjectEntity {
    /// The canonical identifier this entity holds.
    pub closed spec fn id(&self) -> Seq<char> {
        self.github_url@
    }

    /// A well-formed entity holds an identifier in canonical form: the
    /// identifier is a fixed point of canonicalization.
    pub open spec fn wf(&self) -> bool {
        canon_spec(self.id()) == Some(self.id())
    }

    /// Canonicalizes and validates `github_url`, and wraps the canonical
    /// identifier. This is the only public constructor.
    pub fn new_validated(github_url: &str) -> (r: Result<Self, Error>)
        ensures
            r matches Ok(p) ==> canon_spec(trim_spec(github_url@)) == Some(p.id()) && p.wf(),
            r is Err ==> canon_spec(trim_spec(github_url@)) is None,
            r matches Err(e) ==> e matches Error::InvalidGithubUrl(_),
    {
        match Self::canonicalize_and_validate(github_url) {
            Ok(c) => {
                proof {
                    lemma_canonicalize_idempotent(github_url@);
                }
                Ok(ProjectEntity { github_url: c })
            },
            Err(e) => Err(e),
        }
    }

    /// Wraps an identifier that is already canonical. Not part of the
    /// public surface: callers outside the crate must go through
    /// [`Self::new_validated`].
    pub(crate) fn from_canonical(github_url: String) -> (r: Self)
        requires
            canon_spec(github_url@) == Some(github_url@),
        ensures
            r.id() == github_url@,
            r.wf(),
    {
        ProjectEntity { github_url }
    }

    /// The canonical URL this entity holds.
    pub fn github_url(&self) -> (r: &String)
        ensures
            r@ == self.id(),
    {
        &self.github_url
    }

    /// Canonicalizes and validates a GitHub repository URL according to
    /// GitHub's naming and structure rules.
    pub fn canonicalize_and_validate(github_url: &str) -> (r: Result<String, Error>)
        ensures
            r matches Ok(c) ==> canon_spec(trim_spec(github_url@)) == Some(c@),
            r is Err ==> canon_spec(trim_spec(github_url@)) is None,
            r matches Err(e) ==> e matches Error::InvalidGithubUrl(_),
    {
        canonicalize(github_url)
    }

    /// Checks an owner name against GitHub's user and organization rules.
    pub fn validate_owner_name(owner: &str) -> (r: Result<(), Error>)
        ensures
            r is Ok <==> valid_owner_seq(owner@),
            r matches Err(e) ==> e matches Error::InvalidGithubUrl(_),
    {
        let v = str_chars(owner);
        validate_owner_chars(&v)
    }

    /// Checks a repository name against GitHub's repository naming rules.
    pub fn validate_repo_name(repo: &str) -> (r: Result<(), Error>)
        ensures
            r is Ok <==> valid_repo_seq(repo@),
            r matches Err(e) ==> e matches Error::InvalidGithubUrl(_),
    {
        let v = str_chars(repo);
        validate_repo_chars(&v)
    }
}

} // verus!
