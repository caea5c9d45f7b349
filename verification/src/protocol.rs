//! What ingestion asks of the persisted store, and what the store answers.
//!
//! Ingestion never touches a store itself. It hands out a [`StoreRequest`]
//! and goes on when it is given the [`StoreReply`].

use crate::model::{Commit, CommitView, Identity, IdentityView};
use vstd::prelude::*;

verus! {

/// One operation on the persisted store.
#[derive(Clone, Debug, PartialEq, Eq)]
pub enum StoreRequest {
    /// Find the release of a project that carries a version label.
    FindRelease { project_id: i32, version: String },
    /// List the ids of all releases of a project.
    ListReleaseIds { project_id: i32 },
    /// Find a commit by its hash among the commits of some releases.
    FindCommit { sha: String, release_ids: Vec<i32> },
    /// Find the author recorded under exactly this identity.
    FindAuthor { identity: Identity },
    /// Record a new author under this identity.
    CreateAuthor { identity: Identity },
    /// Record this commit.
    CreateCommit { commit: Commit },
}

/// The mathematical value of a [`StoreRequest`].
pub enum StoreRequestView {
    FindRelease { project_id: i32, version: Seq<char> },
    ListReleaseIds { project_id: i32 },
    FindCommit { sha: Seq<char>, release_ids: Seq<i32> },
    FindAuthor { identity: IdentityView },
    CreateAuthor { identity: IdentityView },
    CreateCommit { commit: CommitView },
}

impl View for StoreRequest {
    type V = StoreRequestView;

    open spec fn view(&self) -> StoreRequestView {
        match self {
            StoreRequest::FindRelease { project_id, version } => StoreRequestView::FindRelease {
                project_id: *project_id,
                version: version@,
            },
            StoreRequest::ListReleaseIds { project_id } => StoreRequestView::ListReleaseIds {
                project_id: *project_id,
            },
            StoreRequest::FindCommit { sha, release_ids } => StoreRequestView::FindCommit {
                sha: sha@,
                release_ids: release_ids@,
            },
            StoreRequest::FindAuthor { identity } => StoreRequestView::FindAuthor {
                identity: identity@,
            },
            StoreRequest::CreateAuthor { identity } => StoreRequestView::CreateAuthor {
                identity: identity@,
            },
            StoreRequest::CreateCommit { commit } => StoreRequestView::CreateCommit {
                commit: commit@,
            },
        }
    }
}

/// The store's answer to one request.
#[derive(Clone, Debug, PartialEq, Eq)]
pub enum StoreReply {
    /// To `FindRelease`: the id of the release, if there is one.
    Release(Option<i32>),
    /// To `ListReleaseIds`: the ids.
    ReleaseIds(Vec<i32>),
    /// To `FindCommit`: whether there is such a commit.
    Commit(bool),
    /// To `FindAuthor`: the id of the author, if there is one.
    Author(Option<i32>),
    /// To `CreateAuthor`: the id of the new author.
    AuthorCreated(i32),
    /// To `CreateCommit`: the commit is recorded.
    CommitCreated,
    /// To any request: the store could not carry it out.
    Failed,
}

/// The mathematical value of a [`StoreReply`].
pub enum StoreReplyView {
    Release(Option<i32>),
    ReleaseIds(Seq<i32>),
    Commit(bool),
    Author(Option<i32>),
    AuthorCreated(i32),
    CommitCreated,
    Failed,
}

impl View for StoreReply {
    type V = StoreReplyView;

    open spec fn view(&self) -> StoreReplyView {
        match self {
            StoreReply::Release(id) => StoreReplyView::Release(*id),
            StoreReply::ReleaseIds(ids) => StoreReplyView::ReleaseIds(ids@),
            StoreReply::Commit(found) => StoreReplyView::Commit(*found),
            StoreReply::Author(id) => StoreReplyView::Author(*id),
            StoreReply::AuthorCreated(id) => StoreReplyView::AuthorCreated(*id),
            StoreReply::CommitCreated => StoreReplyView::CommitCreated,
            StoreReply::Failed => StoreReplyView::Failed,
        }
    }
}

} // verus!
