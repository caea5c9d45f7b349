//! The ingestion of one project, one decision at a time.
//!
//! An [`IngestionEngine`] holds what is known so far about the ingestion of
//! one project and the one request to the store that it waits on. Given the
//! reply, [`IngestionEngine::step`] decides what happens next: another
//! request, the end of the run with a report, or its end with an error. The
//! engine performs no input or output, so whoever drives it may keep the
//! store wherever it likes.

use crate::alias::canonical_identity;
use crate::authors::{AuthorStore, AuthorStoreView};
use crate::model::{Commit, CommitView, FetchedCommit, FetchedCommitView, Identity, IdentityView};
use crate::protocol::{StoreReply, StoreReplyView, StoreRequest, StoreRequestView};
use crate::report::{IngestError, IngestErrorView, IngestionReport, IngestionReportView};
use crate::scope::{master_label, master_version, ReleaseScope, ReleaseScopeView};
use vstd::prelude::*;

verus! {

/// The request that an engine waits on.
#[derive(Clone, Debug, PartialEq, Eq)]
pub enum Phase {
    /// The master release of the project was asked for.
    AwaitMaster,
    /// The release ids of the project were asked for.
    AwaitReleaseIds,
    /// The current commit was looked up among the project's releases.
    AwaitCommit,
    /// The author under the canonical identity of the current commit was
    /// looked up.
    AwaitAuthor { identity: Identity },
    /// The creation of an author under the canonical identity of the current
    /// commit was asked for.
    AwaitNewAuthor { identity: Identity },
    /// The creation of the current commit, by this author, was asked for.
    AwaitAttach { author_id: i32 },
}

/// The mathematical value of a [`Phase`].
pub enum PhaseView {
    AwaitMaster,
    AwaitReleaseIds,
    AwaitCommit,
    AwaitAuthor { identity: IdentityView },
    AwaitNewAuthor { identity: IdentityView },
    AwaitAttach { author_id: i32 },
}

impl View for Phase {
    type V = PhaseView;

    open spec fn view(&self) -> PhaseView {
        match self {
            Phase::AwaitMaster => PhaseView::AwaitMaster,
            Phase::AwaitReleaseIds => PhaseView::AwaitReleaseIds,
            Phase::AwaitCommit => PhaseView::AwaitCommit,
            Phase::AwaitAuthor { identity } => PhaseView::AwaitAuthor { identity: identity@ },
            Phase::AwaitNewAuthor { identity } => PhaseView::AwaitNewAuthor {
                identity: identity@,
            },
            Phase::AwaitAttach { author_id } => PhaseView::AwaitAttach { author_id: *author_id },
        }
    }
}

/// The ingestion of one project, under way.
#[derive(Clone, Debug, PartialEq, Eq)]
pub struct IngestionEngine {
    pub project_id: i32,
    /// The commits to ingest, in the order in which they were fetched.
    pub fetched: Vec<FetchedCommit>,
    /// The number of commits dealt with; the commit at this position is the
    /// current one.
    pub position: usize,
    pub phase: Phase,
    /// The scope of the project, as far as it is known.
    pub scope: ReleaseScope,
    pub report: IngestionReport,
}

/// The mathematical value of an [`IngestionEngine`].
pub struct EngineView {
    pub project_id: i32,
    pub fetched: Seq<FetchedCommitView>,
    pub position: int,
    pub phase: PhaseView,
    pub scope: ReleaseScopeView,
    pub report: IngestionReportView,
}

impl View for IngestionEngine {
    type V = EngineView;

    open spec fn view(&self) -> EngineView {
        EngineView {
            project_id: self.project_id,
            fetched: self.fetched.deep_view(),
            position: self.position as int,
            phase: self.phase@,
            scope: self.scope@,
            report: self.report@,
        }
    }
}

/// What one decision of an engine leads to.
#[derive(Clone, Debug, PartialEq, Eq)]
pub enum Step {
    /// The run goes on: the engine waits on the reply to this request.
    Continue(IngestionEngine, StoreRequest),
    /// The run is over; every fetched commit is in the report.
    Finished(IngestionReport),
    /// The run is over early.
    Failed(IngestError),
}

/// The mathematical value of a [`Step`].
pub enum StepView {
    Continue(EngineView, StoreRequestView),
    Finished(IngestionReportView),
    Failed(IngestErrorView),
}

impl View for Step {
    type V = StepView;

    open spec fn view(&self) -> StepView {
        match self {
            Step::Continue(engine, request) => StepView::Continue(engine@, request@),
            Step::Finished(report) => StepView::Finished(report@),
            Step::Failed(error) => StepView::Failed(error@),
        }
    }
}

impl AuthorStoreView {
    /// The author store after it has remembered `id` for `identity`.
    pub open spec fn remember(self, identity: IdentityView, id: i32) -> AuthorStoreView {
        AuthorStoreView { cache: self.cache.insert(identity, id), ..self }
    }
}

impl EngineView {
    /// Whether a commit is left to deal with.
    pub open spec fn has_current(self) -> bool {
        0 <= self.position < self.fetched.len()
    }

    /// The commit that is being dealt with.
    pub open spec fn current(self) -> FetchedCommitView {
        self.fetched[self.position]
    }

    /// Whether the engine is dealing with a commit, rather than finding out
    /// the project's scope.
    pub open spec fn in_commits(self) -> bool {
        !(self.phase is AwaitMaster || self.phase is AwaitReleaseIds)
    }

    /// The request whose reply the engine waits on.
    pub open spec fn awaited(self) -> StoreRequestView {
        match self.phase {
            PhaseView::AwaitMaster => StoreRequestView::FindRelease {
                project_id: self.project_id,
                version: master_label(),
            },
            PhaseView::AwaitReleaseIds => StoreRequestView::ListReleaseIds {
                project_id: self.project_id,
            },
            PhaseView::AwaitCommit => StoreRequestView::FindCommit {
                sha: self.current().sha,
                release_ids: self.scope.all_release_ids,
            },
            PhaseView::AwaitAuthor { identity } => StoreRequestView::FindAuthor { identity },
            PhaseView::AwaitNewAuthor { identity } => StoreRequestView::CreateAuthor { identity },
            PhaseView::AwaitAttach { author_id } => StoreRequestView::CreateCommit {
                commit: CommitView {
                    sha: self.current().sha,
                    author_id,
                    release_id: self.scope.master_release_id,
                },
            },
        }
    }

    /// The engine in another phase, together with the request it then waits
    /// on.
    pub open spec fn wait_in(self, phase: PhaseView) -> StepView {
        let engine = EngineView { phase, ..self };
        StepView::Continue(engine, engine.awaited())
    }

    /// Turning to the commit at `position`: it is looked up, or, where no
    /// commit is left, the run is over.
    pub open spec fn turn_to(self, position: int) -> StepView {
        let engine = EngineView { position, ..self };
        if engine.has_current() {
            engine.wait_in(PhaseView::AwaitCommit)
        } else {
            StepView::Finished(self.report)
        }
    }

    /// The error for a request that the store did not carry out, or did not
    /// answer in kind.
    pub open spec fn store_failure(self) -> IngestErrorView {
        IngestErrorView::Persistence {
            project_id: self.project_id,
            sha: if self.in_commits() && self.has_current() {
                Some(self.current().sha)
            } else {
                None
            },
        }
    }

    /// The decision that the engine takes on `reply`, and what the author
    /// store remembers after it.
    ///
    /// - No master release: a configuration error.
    /// - The current commit is among the project's releases: it is noted as
    ///   present and the next commit is turned to.
    /// - It is not: its author is resolved, through the alias table, then
    ///   the remembered ids, then the store, and only then by creation; the
    ///   commit is then created on the master release and noted as created.
    /// - A reply that is a failure, or that does not answer the request
    ///   awaited: a persistence error, and nothing more is asked.
    pub open spec fn step(self, authors: AuthorStoreView, reply: StoreReplyView) -> (
        StepView,
        AuthorStoreView,
    ) {
        let failed = (StepView::Failed(self.store_failure()), authors);
        if self.in_commits() && !self.has_current() {
            (StepView::Finished(self.report), authors)
        } else {
            match self.phase {
                PhaseView::AwaitMaster => match reply {
                    StoreReplyView::Release(Some(master)) => (
                        EngineView {
                            scope: ReleaseScopeView { master_release_id: master, ..self.scope },
                            ..self
                        }.wait_in(PhaseView::AwaitReleaseIds),
                        authors,
                    ),
                    StoreReplyView::Release(None) => (
                        StepView::Failed(
                            IngestErrorView::Configuration { project_id: self.project_id },
                        ),
                        authors,
                    ),
                    _ => failed,
                },
                PhaseView::AwaitReleaseIds => match reply {
                    StoreReplyView::ReleaseIds(ids) => (
                        EngineView {
                            scope: ReleaseScopeView { all_release_ids: ids, ..self.scope },
                            ..self
                        }.turn_to(0),
                        authors,
                    ),
                    _ => failed,
                },
                PhaseView::AwaitCommit => match reply {
                    StoreReplyView::Commit(true) => (
                        EngineView {
                            report: self.report.with_present(self.current().sha),
                            ..self
                        }.turn_to(self.position + 1),
                        authors,
                    ),
                    StoreReplyView::Commit(false) => {
                        let canonical = canonical_identity(
                            authors.rules,
                            self.current().raw_identity(),
                        );
                        if authors.cache.contains_key(canonical) {
                            (
                                self.wait_in(
                                    PhaseView::AwaitAttach { author_id: authors.cache[canonical] },
                                ),
                                authors,
                            )
                        } else {
                            (self.wait_in(PhaseView::AwaitAuthor { identity: canonical }), authors)
                        }
                    },
                    _ => failed,
                },
                PhaseView::AwaitAuthor { identity } => match reply {
                    StoreReplyView::Author(Some(id)) => (
                        self.wait_in(PhaseView::AwaitAttach { author_id: id }),
                        authors.remember(identity, id),
                    ),
                    StoreReplyView::Author(None) => (
                        self.wait_in(PhaseView::AwaitNewAuthor { identity }),
                        authors,
                    ),
                    _ => failed,
                },
                PhaseView::AwaitNewAuthor { identity } => match reply {
                    StoreReplyView::AuthorCreated(id) => (
                        self.wait_in(PhaseView::AwaitAttach { author_id: id }),
                        authors.remember(identity, id),
                    ),
                    _ => failed,
                },
                PhaseView::AwaitAttach { author_id } => match reply {
                    StoreReplyView::CommitCreated => (
                        EngineView {
                            report: self.report.with_created(self.current().sha),
                            ..self
                        }.turn_to(self.position + 1),
                        authors,
                    ),
                    _ => failed,
                },
            }
        }
    }
}

/// How the ingestion of a project starts, given what the fetch brought:
/// with a transport error where it brought nothing, else with the request
/// for the project's master release.
pub open spec fn begin_step(project_id: i32, fetched: Option<Seq<FetchedCommitView>>) -> StepView {
    match fetched {
        None => StepView::Failed(IngestErrorView::Transport { project_id }),
        Some(commits) => EngineView {
            project_id,
            fetched: commits,
            position: 0,
            phase: PhaseView::AwaitMaster,
            scope: ReleaseScopeView { master_release_id: 0, all_release_ids: Seq::empty() },
            report: IngestionReportView::empty(),
        }.wait_in(PhaseView::AwaitMaster),
    }
}

/// The mathematical value of what a fetch brought.
pub open spec fn fetched_view(fetched: Option<Vec<FetchedCommit>>) -> Option<
    Seq<FetchedCommitView>,
> {
    match fetched {
        Some(commits) => Some(commits.deep_view()),
        None => None,
    }
}

impl IngestionEngine {
    /// Starts the ingestion of the project `project_id`. `fetched` holds the
    /// commits that the remote service reported, or `None` where they could
    /// not be retrieved.
    pub fn begin(project_id: i32, fetched: Option<Vec<FetchedCommit>>) -> (step: Step)
        ensures
            step@ == begin_step(project_id, fetched_view(fetched)),
    {
        match fetched {
            None => Step::Failed(IngestError::Transport { project_id }),
            Some(commits) => {
                let engine = IngestionEngine {
                    project_id,
                    fetched: commits,
                    position: 0,
                    phase: Phase::AwaitMaster,
                    scope: ReleaseScope { master_release_id: 0, all_release_ids: Vec::new() },
                    report: IngestionReport::new(),
                };
                Step::Continue(
                    engine,
                    StoreRequest::FindRelease { project_id, version: master_version() },
                )
            },
        }
    }

    /// The error for a request that the store did not carry out, or did not
    /// answer in kind.
    fn store_failure(&self) -> (e: IngestError)
        ensures
            e@ == self@.store_failure(),
    {
        let in_commits = match self.phase {
            Phase::AwaitMaster => false,
            Phase::AwaitReleaseIds => false,
            _ => true,
        };
        if in_commits && self.position < self.fetched.len() {
            IngestError::Persistence {
                project_id: self.project_id,
                sha: Some(self.fetched[self.position].sha.clone()),
            }
        } else {
            IngestError::Persistence { project_id: self.project_id, sha: None }
        }
    }

    /// Turns to the commit at `position`.
    fn turn_to(self, position: usize) -> (step: Step)
        ensures
            step@ == self@.turn_to(position as int),
    {
        let mut engine = self;
        if position < engine.fetched.len() {
            engine.position = position;
            engine.phase = Phase::AwaitCommit;
            let request = StoreRequest::FindCommit {
                sha: engine.fetched[position].sha.clone(),
                release_ids: engine.scope.all_release_ids.clone(),
            };
            Step::Continue(engine, request)
        } else {
            Step::Finished(engine.report)
        }
    }

    /// Asks for the current commit to be created, by `author_id`, on the
    /// master release.
    fn attach(self, author_id: i32) -> (step: Step)
        requires
            self@.has_current(),
        ensures
            step@ == self@.wait_in(PhaseView::AwaitAttach { author_id }),
    {
        let mut engine = self;
        engine.phase = Phase::AwaitAttach { author_id };
        let commit = Commit {
            sha: engine.fetched[engine.position].sha.clone(),
            author_id,
            release_id: engine.scope.master_release_id,
        };
        Step::Continue(engine, StoreRequest::CreateCommit { commit })
    }

    /// Decides, on the reply to the request awaited, how the run goes on.
    ///
    /// `authors` is the author store of the run; it is read where an author
    /// has to be resolved and remembers what the store answered.
    pub fn step(self, authors: &mut AuthorStore, reply: StoreReply) -> (step: Step)
        ensures
            (step@, final(authors)@) == self@.step(old(authors)@, reply@),
            step matches Step::Continue(engine, request) ==> request@ == engine@.awaited(),
    {
        let in_commits = match self.phase {
            Phase::AwaitMaster => false,
            Phase::AwaitReleaseIds => false,
            _ => true,
        };
        if in_commits && self.position >= self.fetched.len() {
            return Step::Finished(self.report);
        }
        let failure = self.store_failure();
        let IngestionEngine { project_id, fetched, position, phase, scope, report } = self;
        match phase {
            Phase::AwaitMaster => match reply {
                StoreReply::Release(Some(master)) => {
                    let engine = IngestionEngine {
                        project_id,
                        fetched,
                        position,
                        phase: Phase::AwaitReleaseIds,
                        scope: ReleaseScope {
                            master_release_id: master,
                            all_release_ids: scope.all_release_ids,
                        },
                        report,
                    };
                    Step::Continue(engine, StoreRequest::ListReleaseIds { project_id })
                },
                StoreReply::Release(None) => Step::Failed(
                    IngestError::Configuration { project_id },
                ),
                _ => Step::Failed(failure),
            },
            Phase::AwaitReleaseIds => match reply {
                StoreReply::ReleaseIds(ids) => {
                    let engine = IngestionEngine {
                        project_id,
                        fetched,
                        position,
                        phase: Phase::AwaitReleaseIds,
                        scope: ReleaseScope {
                            master_release_id: scope.master_release_id,
                            all_release_ids: ids,
                        },
                        report,
                    };
                    engine.turn_to(0)
                },
                _ => Step::Failed(failure),
            },
            Phase::AwaitCommit => match reply {
                StoreReply::Commit(true) => {
                    let mut report = report;
                    report.note_present(fetched[position].sha.clone());
                    let engine = IngestionEngine {
                        project_id,
                        fetched,
                        position,
                        phase: Phase::AwaitCommit,
                        scope,
                        report,
                    };
                    engine.turn_to(position + 1)
                },
                StoreReply::Commit(false) => {
                    let canonical = authors.canonical(
                        fetched[position].author_name.as_str(),
                        fetched[position].author_email.as_str(),
                    );
                    match authors.cached(&canonical) {
                        Some(author_id) => {
                            let engine = IngestionEngine {
                                project_id,
                                fetched,
                                position,
                                phase: Phase::AwaitCommit,
                                scope,
                                report,
                            };
                            engine.attach(author_id)
                        },
                        None => {
                            let request = StoreRequest::FindAuthor {
                                identity: canonical.duplicate(),
                            };
                            let engine = IngestionEngine {
                                project_id,
                                fetched,
                                position,
                                phase: Phase::AwaitAuthor { identity: canonical },
                                scope,
                                report,
                            };
                            Step::Continue(engine, request)
                        },
                    }
                },
                _ => Step::Failed(failure),
            },
            Phase::AwaitAuthor { identity } => match reply {
                StoreReply::Author(Some(author_id)) => {
                    let engine = IngestionEngine {
                        project_id,
                        fetched,
                        position,
                        phase: Phase::AwaitCommit,
                        scope,
                        report,
                    };
                    authors.remember(identity, author_id);
                    engine.attach(author_id)
                },
                StoreReply::Author(None) => {
                    let request = StoreRequest::CreateAuthor { identity: identity.duplicate() };
                    let engine = IngestionEngine {
                        project_id,
                        fetched,
                        position,
                        phase: Phase::AwaitNewAuthor { identity },
                        scope,
                        report,
                    };
                    Step::Continue(engine, request)
                },
                _ => Step::Failed(failure),
            },
            Phase::AwaitNewAuthor { identity } => match reply {
                StoreReply::AuthorCreated(author_id) => {
                    let engine = IngestionEngine {
                        project_id,
                        fetched,
                        position,
                        phase: Phase::AwaitCommit,
                        scope,
                        report,
                    };
                    authors.remember(identity, author_id);
                    engine.attach(author_id)
                },
                _ => Step::Failed(failure),
            },
            Phase::AwaitAttach { author_id } => match reply {
                StoreReply::CommitCreated => {
                    let mut report = report;
                    report.note_created(fetched[position].sha.clone());
                    let engine = IngestionEngine {
                        project_id,
                        fetched,
                        position,
                        phase: Phase::AwaitCommit,
                        scope,
                        report,
                    };
                    engine.turn_to(position + 1)
                },
                _ => Step::Failed(failure),
            },
        }
    }
}

} // verus!
