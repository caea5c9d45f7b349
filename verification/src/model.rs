//! The records that ingestion reads and writes, and their mathematical views.

use vstd::prelude::*;

verus! {

/// A raw or canonical identity: a name and an e-mail address.
#[derive(Clone, Debug, PartialEq, Eq)]
pub struct Identity {
    pub name: String,
    pub email: String,
}

/// The mathematical value of an [`Identity`].
pub struct IdentityView {
    pub name: Seq<char>,
    pub email: Seq<char>,
}

impl View for Identity {
    type V = IdentityView;

    open spec fn view(&self) -> IdentityView {
        IdentityView { name: self.name@, email: self.email@ }
    }
}

impl DeepView for Identity {
    type V = IdentityView;

    open spec fn deep_view(&self) -> IdentityView {
        self@
    }
}

impl Identity {
    /// An identity made of copies of the two texts.
    pub fn new(name: &str, email: &str) -> (r: Identity)
        ensures
            r@ == (IdentityView { name: name@, email: email@ }),
    {
        Identity { name: name.to_owned(), email: email.to_owned() }
    }

    /// A copy with the same view.
    pub fn duplicate(&self) -> (r: Identity)
        ensures
            r@ == self@,
    {
        Identity { name: self.name.clone(), email: self.email.clone() }
    }

    /// Whether both components are equal, character for character.
    pub fn same_as(&self, other: &Identity) -> (r: bool)
        ensures
            r == (self@ == other@),
    {
        self.name == other.name && self.email == other.email
    }
}

/// A project whose history is ingested. Supplied from outside and never
/// changed here.
#[derive(Clone, Debug, PartialEq, Eq)]
pub struct Project {
    pub id: i32,
    pub name: String,
    pub github_name: String,
}

/// The mathematical value of a [`Project`].
pub struct ProjectView {
    pub id: i32,
    pub name: Seq<char>,
    pub github_name: Seq<char>,
}

impl View for Project {
    type V = ProjectView;

    open spec fn view(&self) -> ProjectView {
        ProjectView { id: self.id, name: self.name@, github_name: self.github_name@ }
    }
}

/// A release of a project. The version label `master` marks the release
/// that stands for the untagged, ongoing history.
#[derive(Clone, Debug, PartialEq, Eq)]
pub struct Release {
    pub id: i32,
    pub project_id: i32,
    pub version: String,
}

/// The mathematical value of a [`Release`].
pub struct ReleaseView {
    pub id: i32,
    pub project_id: i32,
    pub version: Seq<char>,
}

impl View for Release {
    type V = ReleaseView;

    open spec fn view(&self) -> ReleaseView {
        ReleaseView { id: self.id, project_id: self.project_id, version: self.version@ }
    }
}

impl DeepView for Release {
    type V = ReleaseView;

    open spec fn deep_view(&self) -> ReleaseView {
        self@
    }
}

/// A contributor under a canonical identity.
#[derive(Clone, Debug, PartialEq, Eq)]
pub struct Author {
    pub id: i32,
    pub name: String,
    pub email: String,
}

/// The mathematical value of an [`Author`].
pub struct AuthorView {
    pub id: i32,
    pub name: Seq<char>,
    pub email: Seq<char>,
}

impl AuthorView {
    /// The identity under which the author is recorded.
    pub open spec fn identity(self) -> IdentityView {
        IdentityView { name: self.name, email: self.email }
    }
}

impl View for Author {
    type V = AuthorView;

    open spec fn view(&self) -> AuthorView {
        AuthorView { id: self.id, name: self.name@, email: self.email@ }
    }
}

impl DeepView for Author {
    type V = AuthorView;

    open spec fn deep_view(&self) -> AuthorView {
        self@
    }
}

/// A recorded commit: its hash, its author and the release it is attached to.
#[derive(Clone, Debug, PartialEq, Eq)]
pub struct Commit {
    pub sha: String,
    pub author_id: i32,
    pub release_id: i32,
}

/// The mathematical value of a [`Commit`].
pub struct CommitView {
    pub sha: Seq<char>,
    pub author_id: i32,
    pub release_id: i32,
}

impl View for Commit {
    type V = CommitView;

    open spec fn view(&self) -> CommitView {
        CommitView { sha: self.sha@, author_id: self.author_id, release_id: self.release_id }
    }
}

impl DeepView for Commit {
    type V = CommitView;

    open spec fn deep_view(&self) -> CommitView {
        self@
    }
}

impl Commit {
    /// A copy with the same view.
    pub fn duplicate(&self) -> (r: Commit)
        ensures
            r@ == self@,
    {
        Commit { sha: self.sha.clone(), author_id: self.author_id, release_id: self.release_id }
    }
}

/// A commit as the remote service reports it.
#[derive(Clone, Debug, PartialEq, Eq)]
pub struct FetchedCommit {
    pub sha: String,
    pub author_name: String,
    pub author_email: String,
}

/// The mathematical value of a [`FetchedCommit`].
pub struct FetchedCommitView {
    pub sha: Seq<char>,
    pub author_name: Seq<char>,
    pub author_email: Seq<char>,
}

impl FetchedCommitView {
    /// The identity as the remote service spelled it.
    pub open spec fn raw_identity(self) -> IdentityView {
        IdentityView { name: self.author_name, email: self.author_email }
    }
}

impl View for FetchedCommit {
    type V = FetchedCommitView;

    open spec fn view(&self) -> FetchedCommitView {
        FetchedCommitView {
            sha: self.sha@,
            author_name: self.author_name@,
            author_email: self.author_email@,
        }
    }
}

impl DeepView for FetchedCommit {
    type V = FetchedCommitView;

    open spec fn deep_view(&self) -> FetchedCommitView {
        self@
    }
}

impl FetchedCommit {
    /// A fetched commit made of copies of the three texts.
    pub fn new(sha: &str, author_name: &str, author_email: &str) -> (r: FetchedCommit)
        ensures
            r@ == (FetchedCommitView {
                sha: sha@,
                author_name: author_name@,
                author_email: author_email@,
            }),
    {
        FetchedCommit {
            sha: sha.to_owned(),
            author_name: author_name.to_owned(),
            author_email: author_email.to_owned(),
        }
    }
}

} // verus!
