//! Verified core of a repository question-answering backend.
//!
//! The library canonicalizes and validates GitHub repository identifiers,
//! validates user questions, classifies the replies of a downstream analysis
//! service, and drives the two-phase ingestion protocol that keeps the
//! project store and the downstream service consistent under partial
//! failure. Network transports and the persistent store live outside the
//! library; the workflow functions here take their replies as plain values
//! and decide every step.

pub mod canon;
pub mod chars;
pub mod entities;
pub mod error;
pub mod gateway;
pub mod question;
pub mod response;
pub mod store;
pub mod strutil;
pub mod workflow;
