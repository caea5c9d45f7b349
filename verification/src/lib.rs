//! Commit ingestion for a contributor database.
//!
//! The crate reconciles the commit history that a remote source-control
//! service reports for a project with the records already held in a
//! persisted store: raw author identities are canonicalised through an alias
//! table, canonical identities are turned into stable author ids, and each
//! commit that the project does not hold yet is attached to the project's
//! `master` release. The store is reached through requests and replies, so
//! that the decisions are made here, and proved, and the input and output
//! happen elsewhere.

pub mod model;

pub mod alias;

pub mod mailmap;

pub mod protocol;

pub mod store;

pub mod authors;

pub mod report;

pub mod scope;

pub mod remote;

pub mod engine;

pub mod ingest;

pub mod laws;
