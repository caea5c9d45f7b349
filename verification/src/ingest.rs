//! The ingestion of one project against the tables in memory.
//!
//! [`ingestion`] says what a whole run leaves behind and reports.
//! [`ingest`] drives an [`IngestionEngine`] against a [`Store`] until the
//! run is over, and is proved to reach exactly that outcome.

use crate::alias::{canonical_identity, AliasRuleView};
use crate::authors::{author_for, AuthorStore, AuthorStoreView};
use crate::engine::{EngineView, IngestionEngine, PhaseView, Step, StepView};
use crate::laws::{law_attachment, law_error_kinds};
use crate::model::{CommitView, FetchedCommit, FetchedCommitView, IdentityView, Project};
use crate::report::{IngestError, IngestErrorView, IngestionReport, IngestionReportView};
use crate::scope::{master_label, release_scope, ReleaseScopeView};
use crate::store::{extends, Store, StoreView};
use vstd::prelude::*;

verus! {

/// What a run leaves behind and reports.
pub struct Outcome {
    pub store: StoreView,
    pub cache: Map<IdentityView, i32>,
    pub result: Result<IngestionReportView, IngestErrorView>,
}

/// The commit row that ingestion creates for a fetched commit: the fetched
/// hash, the resolved author and the master release of the project.
pub open spec fn attached_commit(
    fetched: FetchedCommitView,
    author_id: i32,
    scope: ReleaseScopeView,
) -> CommitView {
    CommitView { sha: fetched.sha, author_id, release_id: scope.master_release_id }
}

/// The outcome of ingesting the commits from `position` on, one after the
/// other.
///
/// A commit whose hash is attached to any release of the project is noted as
/// present and changes nothing. For any other commit the author is resolved
/// and the commit is created on the master release. The run ends early, with
/// a persistence error that names the commit, where the store has no author
/// id left; what was created before that stays.
pub open spec fn ingest_from(
    rules: Seq<AliasRuleView>,
    project_id: i32,
    scope: ReleaseScopeView,
    commits: Seq<FetchedCommitView>,
    position: int,
    store: StoreView,
    cache: Map<IdentityView, i32>,
    report: IngestionReportView,
) -> Outcome
    decreases commits.len() - position,
{
    if position < 0 || position >= commits.len() {
        Outcome { store, cache, result: Ok(report) }
    } else {
        let commit = commits[position];
        if store.has_commit(commit.sha, scope.all_release_ids) {
            ingest_from(
                rules,
                project_id,
                scope,
                commits,
                position + 1,
                store,
                cache,
                report.with_present(commit.sha),
            )
        } else {
            let author = author_for(rules, cache, store, commit.raw_identity());
            match author.id {
                Some(author_id) => ingest_from(
                    rules,
                    project_id,
                    scope,
                    commits,
                    position + 1,
                    author.store.with_commit(attached_commit(commit, author_id, scope)),
                    author.cache,
                    report.with_created(commit.sha),
                ),
                None => Outcome {
                    store: author.store,
                    cache: author.cache,
                    result: Err(
                        IngestErrorView::Persistence { project_id, sha: Some(commit.sha) },
                    ),
                },
            }
        }
    }
}

/// The outcome of ingesting `commits` for the project `project_id`.
///
/// Without a master release the run ends at once with a configuration error
/// and changes nothing. Otherwise the commits are ingested in their order
/// within the scope of the project.
pub open spec fn ingestion(
    rules: Seq<AliasRuleView>,
    cache: Map<IdentityView, i32>,
    store: StoreView,
    project_id: i32,
    commits: Seq<FetchedCommitView>,
) -> Outcome {
    match release_scope(store, project_id) {
        Some(scope) => ingest_from(
            rules,
            project_id,
            scope,
            commits,
            0,
            store,
            cache,
            IngestionReportView::empty(),
        ),
        None => Outcome {
            store,
            cache,
            result: Err(IngestErrorView::Configuration { project_id }),
        },
    }
}

/// What the engine knows about the store while it waits: each fact was
/// learned from an earlier reply and still holds, since nothing was written
/// in between.
spec fn in_step(
    engine: EngineView,
    rules: Seq<AliasRuleView>,
    store: StoreView,
    cache: Map<IdentityView, i32>,
) -> bool {
    match engine.phase {
        PhaseView::AwaitMaster => engine.position == 0 && engine.report
            == IngestionReportView::empty(),
        PhaseView::AwaitReleaseIds => engine.position == 0 && engine.report
            == IngestionReportView::empty() && store.find_release(
            engine.project_id,
            master_label(),
        ) == Some(engine.scope.master_release_id),
        PhaseView::AwaitCommit => engine.has_current(),
        PhaseView::AwaitAuthor { identity } => {
            &&& engine.has_current()
            &&& !store.has_commit(engine.current().sha, engine.scope.all_release_ids)
            &&& identity == canonical_identity(rules, engine.current().raw_identity())
            &&& !cache.contains_key(identity)
        },
        PhaseView::AwaitNewAuthor { identity } => {
            &&& engine.has_current()
            &&& !store.has_commit(engine.current().sha, engine.scope.all_release_ids)
            &&& identity == canonical_identity(rules, engine.current().raw_identity())
            &&& !cache.contains_key(identity)
            &&& store.find_author(identity) is None
        },
        PhaseView::AwaitAttach { author_id } => engine.has_current(),
    }
}

/// The outcome that a run reaches from an engine that waits on a request
/// not carried out yet.
spec fn resume(
    engine: EngineView,
    rules: Seq<AliasRuleView>,
    store: StoreView,
    cache: Map<IdentityView, i32>,
) -> Outcome {
    match engine.phase {
        PhaseView::AwaitMaster => ingestion(rules, cache, store, engine.project_id, engine.fetched),
        PhaseView::AwaitReleaseIds => ingestion(
            rules,
            cache,
            store,
            engine.project_id,
            engine.fetched,
        ),
        PhaseView::AwaitAttach { author_id } => ingest_from(
            rules,
            engine.project_id,
            engine.scope,
            engine.fetched,
            engine.position + 1,
            store.with_commit(attached_commit(engine.current(), author_id, engine.scope)),
            cache,
            engine.report.with_created(engine.current().sha),
        ),
        _ => ingest_from(
            rules,
            engine.project_id,
            engine.scope,
            engine.fetched,
            engine.position,
            store,
            cache,
            engine.report,
        ),
    }
}

/// The outcome that a run reaches from a decision of the engine.
spec fn settle(
    step: StepView,
    rules: Seq<AliasRuleView>,
    store: StoreView,
    cache: Map<IdentityView, i32>,
) -> Outcome {
    match step {
        StepView::Continue(engine, request) => resume(engine, rules, store, cache),
        StepView::Finished(report) => Outcome { store, cache, result: Ok(report) },
        StepView::Failed(error) => Outcome { store, cache, result: Err(error) },
    }
}

/// A bound on the number of requests that a run still makes.
spec fn requests_left(step: StepView) -> int {
    match step {
        StepView::Continue(engine, request) => 8 * (engine.fetched.len() - engine.position)
            + match engine.phase {
            PhaseView::AwaitMaster => 6int,
            PhaseView::AwaitReleaseIds => 5,
            PhaseView::AwaitCommit => 4,
            PhaseView::AwaitAuthor { .. } => 3,
            PhaseView::AwaitNewAuthor { .. } => 2,
            PhaseView::AwaitAttach { .. } => 1,
        },
        _ => 0,
    }
}

/// Whether a decision of the engine fits the store it is taken against.
spec fn fits(
    step: StepView,
    rules: Seq<AliasRuleView>,
    store: StoreView,
    cache: Map<IdentityView, i32>,
) -> bool {
    match step {
        StepView::Continue(engine, request) => request == engine.awaited() && in_step(
            engine,
            rules,
            store,
            cache,
        ),
        _ => true,
    }
}

/// One request carried out by the store and one decision of the engine on
/// its reply do not change the outcome that the run reaches, and bring it
/// nearer.
proof fn lemma_step_keeps_outcome(
    engine: EngineView,
    rules: Seq<AliasRuleView>,
    store: StoreView,
    cache: Map<IdentityView, i32>,
)
    requires
        in_step(engine, rules, store, cache),
    ensures
        ({
            let request = engine.awaited();
            let next = engine.step(AuthorStoreView { rules, cache }, store.reply_to(request));
            &&& next.1.rules == rules
            &&& fits(next.0, rules, store.after(request), next.1.cache)
            &&& settle(next.0, rules, store.after(request), next.1.cache) == resume(
                engine,
                rules,
                store,
                cache,
            )
            &&& requests_left(next.0) < requests_left(StepView::Continue(engine, request))
        }),
{
    // Where the decision ends the run after the current commit, no commit
    // is left, and ingesting from the next position on gives the report as
    // it stands.
    if engine.in_commits() && engine.position + 1 >= engine.fetched.len() {
        let request = engine.awaited();
        let next = engine.step(AuthorStoreView { rules, cache }, store.reply_to(request));
        if let StepView::Finished(report) = next.0 {
            assert(ingest_from(
                rules,
                engine.project_id,
                engine.scope,
                engine.fetched,
                engine.position + 1,
                store.after(request),
                cache,
                report,
            ).result == Ok::<IngestionReportView, IngestErrorView>(report));
        }
    }
}

/// The mathematical value of the result of a run.
pub open spec fn result_view(result: Result<IngestionReport, IngestError>) -> Result<
    IngestionReportView,
    IngestErrorView,
> {
    match result {
        Ok(report) => Ok(report@),
        Err(error) => Err(error@),
    }
}

/// Ingests the fetched commits of `project` into `store`.
///
/// The project's scope is found once. Each fetched commit whose hash is
/// attached to any release of the project is skipped; each other commit is
/// recorded on the master release, under the author that `authors` resolves
/// its raw identity to. The run fails with a configuration error, and
/// changes nothing, exactly where the project has no master release; it
/// fails with a persistence error exactly where an author had to be created
/// and the store had no id left. However the run ends, the rows that were
/// there are untouched and every commit added is on the master release.
#[verifier::loop_isolation(false)]
pub fn ingest(
    store: &mut Store,
    authors: &mut AuthorStore,
    project: &Project,
    fetched: Vec<FetchedCommit>,
) -> (result: Result<IngestionReport, IngestError>)
    ensures
        final(authors)@.rules == old(authors)@.rules,
        ({
            let outcome = ingestion(
                old(authors)@.rules,
                old(authors)@.cache,
                old(store)@,
                project.id,
                fetched.deep_view(),
            );
            &&& final(store)@ == outcome.store
            &&& final(authors)@.cache == outcome.cache
            &&& result_view(result) == outcome.result
        }),
        old(store)@.wf() ==> final(store)@.wf(),
        release_scope(old(store)@, project.id) is None <==> result_view(result) == Err::<
            IngestionReportView,
            IngestErrorView,
        >(IngestErrorView::Configuration { project_id: project.id }),
        release_scope(old(store)@, project.id) is None ==> final(store)@ == old(store)@,
        extends(final(store)@, old(store)@),
        forall|j: int|
            old(store)@.commits.len() <= j < final(store)@.commits.len() ==> Some(
                (#[trigger] final(store)@.commits[j]).release_id,
            ) == old(store)@.find_release(project.id, master_label()),
{
    let ghost rules = authors@.rules;
    proof {
        law_attachment(rules, authors@.cache, store@, project.id, fetched.deep_view());
        law_error_kinds(rules, authors@.cache, store@, project.id, fetched.deep_view());
    }
    let ghost outcome = ingestion(rules, authors@.cache, store@, project.id, fetched.deep_view());
    let mut step = IngestionEngine::begin(project.id, Some(fetched));
    loop
        invariant
            rules == old(authors)@.rules,
            outcome == ingestion(
                rules,
                old(authors)@.cache,
                old(store)@,
                project.id,
                fetched.deep_view(),
            ),
            authors@.rules == rules,
            fits(step@, rules, store@, authors@.cache),
            settle(step@, rules, store@, authors@.cache) == outcome,
            old(store)@.wf() ==> store@.wf(),
        decreases requests_left(step@),
    {
        match step {
            Step::Finished(report) => {
                return Ok(report);
            },
            Step::Failed(error) => {
                return Err(error);
            },
            Step::Continue(engine, request) => {
                proof {
                    lemma_step_keeps_outcome(engine@, rules, store@, authors@.cache);
                }
                let reply = store.perform(&request);
                step = engine.step(authors, reply);
            },
        }
    }
}

} // verus!
