//! What holds of every run: the laws of ingestion.
//!
//! Each law is a proof about [`ingestion`], [`author_for`] or
//! [`canonical_identity`], the functions in which
//! [`ingest`](crate::ingest::ingest),
//! [`AuthorStore::get_or_create`](crate::authors::AuthorStore::get_or_create)
//! and [`AliasResolver::resolve`](crate::alias::AliasResolver::resolve) state
//! what they do, and so holds of every call of those.

use crate::alias::{canonical_identity, AliasRuleView};
use crate::authors::{author_for, cache_agrees, AuthorStoreView};
use crate::engine::{EngineView, StepView};
use crate::ingest::{attached_commit, ingest_from, ingestion, Outcome};
use crate::mailmap::rules_in;
use crate::model::{AuthorView, FetchedCommitView, IdentityView};
use crate::protocol::{StoreReplyView, StoreRequestView};
use crate::report::{IngestErrorView, IngestionReportView};
use crate::scope::{lemma_master_in_scope, master_label, release_scope, ReleaseScopeView};
use crate::store::{
    extends, first_author, lemma_find_author_kept, lemma_first_author, lemma_first_author_push,
    lemma_has_commit_kept, StoreView,
};
use vstd::prelude::*;

verus! {

/// **Passthrough.** Under a table without rules every identity is its own
/// canonical form.
pub proof fn law_passthrough(rules: Seq<AliasRuleView>, raw: IdentityView)
    requires
        rules.len() == 0,
    ensures
        canonical_identity(rules, raw) == raw,
{
}

/// A text without characters states no rule, so that under the table read
/// from it every identity is its own canonical form.
pub proof fn law_empty_text_states_nothing(text: Seq<char>, raw: IdentityView)
    requires
        text.len() == 0,
    ensures
        rules_in(text) == Seq::<AliasRuleView>::empty(),
        canonical_identity(rules_in(text), raw) == raw,
{
}

/// The hashes of fetched commits, in their order.
pub open spec fn shas(commits: Seq<FetchedCommitView>) -> Seq<Seq<char>> {
    commits.map_values(|c: FetchedCommitView| c.sha)
}

/// **Identity stability within a run.** Two raw identities with one
/// canonical identity get one author id: resolving the second after the
/// first gives the same answer and leaves the store and, where the first
/// was answered, what is remembered as the first left them. No second
/// author is created.
pub proof fn law_identity_stability(
    rules: Seq<AliasRuleView>,
    cache: Map<IdentityView, i32>,
    store: StoreView,
    first: IdentityView,
    second: IdentityView,
)
    requires
        canonical_identity(rules, first) == canonical_identity(rules, second),
    ensures
        ({
            let a = author_for(rules, cache, store, first);
            let b = author_for(rules, a.cache, a.store, second);
            &&& b.id == a.id
            &&& b.store == a.store
            &&& b.cache == a.cache
        }),
{
    let canonical = canonical_identity(rules, first);
    let a = author_for(rules, cache, store, first);
    let b = author_for(rules, a.cache, a.store, second);
    if a.id is Some {
        assert(a.cache.contains_key(canonical));
    }
}

/// **Agreement is kept.** Where every remembered id is the id under which
/// the store finds the identity, the same holds after an identity was
/// resolved, and the id given is the one under which the store finds the
/// canonical identity.
pub proof fn law_resolution_agrees(
    rules: Seq<AliasRuleView>,
    cache: Map<IdentityView, i32>,
    store: StoreView,
    raw: IdentityView,
)
    requires
        cache_agrees(cache, store),
    ensures
        ({
            let a = author_for(rules, cache, store, raw);
            &&& extends(a.store, store)
            &&& cache_agrees(a.cache, a.store)
            &&& a.id is Some ==> a.store.find_author(canonical_identity(rules, raw)) == a.id
        }),
{
    let canonical = canonical_identity(rules, raw);
    let a = author_for(rules, cache, store, raw);
    if !cache.contains_key(canonical) && store.find_author(canonical) is None
        && store.can_create_author() {
        let author = AuthorView {
            id: store.next_author_id(),
            name: canonical.name,
            email: canonical.email,
        };
        assert(a.store.authors == store.authors.push(author));
        assert forall|identity: IdentityView| #[trigger]
            a.cache.contains_key(identity) implies a.store.find_author(identity) == Some(
            a.cache[identity],
        ) by {
            lemma_first_author_push(store.authors, author, identity, 0);
            lemma_first_author(store.authors, identity, 0);
            if identity != canonical {
                assert(cache.contains_key(identity));
                let i = first_author(store.authors, identity, 0)->Some_0;
                assert(a.store.authors[i] == store.authors[i]);
            } else {
                assert(author.identity() == canonical);
                assert(a.store.authors[store.authors.len() as int] == author);
            }
        }
        lemma_first_author_push(store.authors, author, canonical, 0);
        assert(a.store.authors[store.authors.len() as int] == author);
    } else {
        assert forall|identity: IdentityView| #[trigger]
            a.cache.contains_key(identity) implies a.store.find_author(identity) == Some(
            a.cache[identity],
        ) by {
            if identity != canonical {
                assert(cache.contains_key(identity));
            }
        }
    }
}

/// **Identity stability across runs.** Where what is remembered agrees with
/// the store, a later run that remembers nothing gives an identity with the
/// same canonical form the id that this run gave, and creates no author.
pub proof fn law_identity_stability_across_runs(
    rules: Seq<AliasRuleView>,
    cache: Map<IdentityView, i32>,
    store: StoreView,
    first: IdentityView,
    second: IdentityView,
)
    requires
        cache_agrees(cache, store),
        canonical_identity(rules, first) == canonical_identity(rules, second),
    ensures
        ({
            let a = author_for(rules, cache, store, first);
            let b = author_for(rules, Map::empty(), a.store, second);
            a.id is Some ==> b.id == a.id && b.store == a.store
        }),
{
    law_resolution_agrees(rules, cache, store, first);
}

/// **Fatal precondition.** For a project without a master release the run
/// ends with a configuration error, and neither the store nor what is
/// remembered has changed.
pub proof fn law_missing_master_is_fatal(
    rules: Seq<AliasRuleView>,
    cache: Map<IdentityView, i32>,
    store: StoreView,
    project_id: i32,
    commits: Seq<FetchedCommitView>,
)
    requires
        release_scope(store, project_id) is None,
    ensures
        ingestion(rules, cache, store, project_id, commits).result == Err::<
            IngestionReportView,
            IngestErrorView,
        >(IngestErrorView::Configuration { project_id }),
        ingestion(rules, cache, store, project_id, commits).store == store,
        ingestion(rules, cache, store, project_id, commits).cache == cache,
{
}

/// Resolving an identity leaves a store that extends the one before and
/// holds the same commits.
pub proof fn lemma_author_for_extends(
    rules: Seq<AliasRuleView>,
    cache: Map<IdentityView, i32>,
    store: StoreView,
    raw: IdentityView,
)
    ensures
        extends(author_for(rules, cache, store, raw).store, store),
        author_for(rules, cache, store, raw).store.commits == store.commits,
{
}

/// What holds of the commits and of the report after the commits from
/// `position` on were ingested, in terms of the store and the report before.
pub open spec fn ingested_well(
    scope: ReleaseScopeView,
    commits: Seq<FetchedCommitView>,
    position: int,
    store: StoreView,
    report: IngestionReportView,
    after: StoreView,
    result: Result<IngestionReportView, IngestErrorView>,
) -> bool {
    &&& extends(after, store)
    &&& forall|j: int|
        store.commits.len() <= j < after.commits.len() ==> (#[trigger] after.commits[j]).release_id
            == scope.master_release_id && !store.has_commit(
            after.commits[j].sha,
            scope.all_release_ids,
        )
    &&& match result {
        Ok(r) => {
            &&& forall|k: int|
                position <= k < commits.len() ==> after.has_commit(
                    (#[trigger] commits[k]).sha,
                    scope.all_release_ids,
                )
            &&& report.created.len() <= r.created.len()
            &&& forall|i: int|
                0 <= i < report.created.len() ==> r.created[i] == report.created[i]
            &&& forall|i: int|
                report.created.len() <= i < r.created.len() ==> !store.has_commit(
                    #[trigger] r.created[i],
                    scope.all_release_ids,
                )
            &&& r.created.len() - report.created.len() == after.commits.len()
                - store.commits.len()
        },
        Err(e) => true,
    }
}

/// Ingesting the commits from `position` on, within a scope that lists its
/// own master release, extends the store by commits on the master release
/// whose hashes the project did not hold, and, where the run succeeds,
/// leaves every fetched hash held by the project.
pub proof fn lemma_ingest_from(
    rules: Seq<AliasRuleView>,
    project_id: i32,
    scope: ReleaseScopeView,
    commits: Seq<FetchedCommitView>,
    position: int,
    store: StoreView,
    cache: Map<IdentityView, i32>,
    report: IngestionReportView,
)
    requires
        0 <= position,
        scope.all_release_ids.contains(scope.master_release_id),
    ensures
        ({
            let out = ingest_from(
                rules,
                project_id,
                scope,
                commits,
                position,
                store,
                cache,
                report,
            );
            ingested_well(scope, commits, position, store, report, out.store, out.result)
        }),
    decreases commits.len() - position,
{
    let ids = scope.all_release_ids;
    let out = ingest_from(rules, project_id, scope, commits, position, store, cache, report);
    if position < commits.len() {
        let commit = commits[position];
        if store.has_commit(commit.sha, ids) {
            lemma_ingest_from(
                rules,
                project_id,
                scope,
                commits,
                position + 1,
                store,
                cache,
                report.with_present(commit.sha),
            );
            if out.result is Ok {
                lemma_has_commit_kept(store, out.store, commit.sha, ids);
            }
        } else {
            let author = author_for(rules, cache, store, commit.raw_identity());
            lemma_author_for_extends(rules, cache, store, commit.raw_identity());
            match author.id {
                Some(author_id) => {
                    let row = attached_commit(commit, author_id, scope);
                    let grown = author.store.with_commit(row);
                    let noted = report.with_created(commit.sha);
                    let at = store.commits.len() as int;
                    lemma_ingest_from(
                        rules,
                        project_id,
                        scope,
                        commits,
                        position + 1,
                        grown,
                        author.cache,
                        noted,
                    );
                    assert(extends(grown, store));
                    assert(grown.commits[at] == row);
                    assert(out.store.commits[at] == row);
                    assert(grown.has_commit(commit.sha, ids));
                    assert forall|j: int| at <= j < out.store.commits.len() implies (
                    #[trigger] out.store.commits[j]).release_id == scope.master_release_id
                        && !store.has_commit(out.store.commits[j].sha, ids) by {
                        if j > at && store.has_commit(out.store.commits[j].sha, ids) {
                            lemma_has_commit_kept(store, grown, out.store.commits[j].sha, ids);
                        }
                    }
                    match out.result {
                        Ok(r) => {
                            lemma_has_commit_kept(grown, out.store, commit.sha, ids);
                            assert(r.created[report.created.len() as int]
                                == noted.created[report.created.len() as int]);
                            assert forall|i: int|
                                report.created.len() <= i < r.created.len() implies !store.has_commit(
                                #[trigger] r.created[i],
                                ids,
                            ) by {
                                if i > report.created.len() && store.has_commit(r.created[i], ids) {
                                    lemma_has_commit_kept(store, grown, r.created[i], ids);
                                }
                            }
                            assert forall|i: int| 0 <= i < report.created.len() implies r.created[i]
                                == report.created[i] by {
                                assert(noted.created[i] == report.created[i]);
                            }
                        },
                        Err(e) => {},
                    }
                },
                None => {},
            }
        }
    }
}

/// Where the project holds every fetched hash from `position` on, ingesting
/// those commits changes neither the store nor what is remembered nor the
/// list of created commits, and notes each of them as present.
pub proof fn lemma_known_commits(
    rules: Seq<AliasRuleView>,
    project_id: i32,
    scope: ReleaseScopeView,
    commits: Seq<FetchedCommitView>,
    position: int,
    store: StoreView,
    cache: Map<IdentityView, i32>,
    report: IngestionReportView,
)
    requires
        0 <= position <= commits.len(),
        forall|k: int|
            position <= k < commits.len() ==> store.has_commit(
                (#[trigger] commits[k]).sha,
                scope.all_release_ids,
            ),
    ensures
        ingest_from(rules, project_id, scope, commits, position, store, cache, report) == (Outcome {
            store,
            cache,
            result: Ok(
                IngestionReportView {
                    created: report.created,
                    already_present: report.already_present + shas(commits).skip(position),
                },
            ),
        }),
    decreases commits.len() - position,
{
    let rest = shas(commits).skip(position);
    if position < commits.len() {
        let commit = commits[position];
        lemma_known_commits(
            rules,
            project_id,
            scope,
            commits,
            position + 1,
            store,
            cache,
            report.with_present(commit.sha),
        );
        assert(report.already_present.push(commit.sha) + shas(commits).skip(position + 1)
            =~= report.already_present + rest);
    } else {
        assert(report.already_present + rest =~= report.already_present);
    }
}

/// **Attachment.** Every commit that a run creates is attached to the master
/// release of its project, and no row that was there before has changed.
pub proof fn law_attachment(
    rules: Seq<AliasRuleView>,
    cache: Map<IdentityView, i32>,
    store: StoreView,
    project_id: i32,
    commits: Seq<FetchedCommitView>,
)
    ensures
        ({
            let out = ingestion(rules, cache, store, project_id, commits);
            &&& extends(out.store, store)
            &&& forall|j: int|
                store.commits.len() <= j < out.store.commits.len() ==> Some(
                    (#[trigger] out.store.commits[j]).release_id,
                ) == store.find_release(project_id, master_label())
            &&& out.result matches Ok(r) ==> r.created.len() == out.store.commits.len()
                - store.commits.len()
        }),
{
    lemma_master_in_scope(store, project_id);
    match release_scope(store, project_id) {
        Some(scope) => {
            lemma_ingest_from(
                rules,
                project_id,
                scope,
                commits,
                0,
                store,
                cache,
                IngestionReportView::empty(),
            );
        },
        None => {},
    }
}

/// **Scoped dedup.** A hash that is attached to any release of the project,
/// the master release or another, is not created again when it is fetched:
/// no commit that the run adds carries it, and the report does not list it
/// as created.
pub proof fn law_scoped_dedup(
    rules: Seq<AliasRuleView>,
    cache: Map<IdentityView, i32>,
    store: StoreView,
    project_id: i32,
    commits: Seq<FetchedCommitView>,
    sha: Seq<char>,
)
    requires
        store.has_commit(sha, store.release_ids(project_id)),
    ensures
        ({
            let out = ingestion(rules, cache, store, project_id, commits);
            &&& forall|j: int|
                store.commits.len() <= j < out.store.commits.len() ==> (
                #[trigger] out.store.commits[j]).sha != sha
            &&& out.result matches Ok(r) ==> !r.created.contains(sha)
        }),
{
    lemma_master_in_scope(store, project_id);
    match release_scope(store, project_id) {
        Some(scope) => {
            lemma_ingest_from(
                rules,
                project_id,
                scope,
                commits,
                0,
                store,
                cache,
                IngestionReportView::empty(),
            );
        },
        None => {},
    }
}

/// **Known commits change nothing.** Where every fetched hash is attached to
/// some release of the project, a run creates no row, remembers nothing new
/// and reports every commit as present and none as created.
pub proof fn law_known_commits_change_nothing(
    rules: Seq<AliasRuleView>,
    cache: Map<IdentityView, i32>,
    store: StoreView,
    project_id: i32,
    commits: Seq<FetchedCommitView>,
)
    requires
        release_scope(store, project_id) is Some,
        forall|k: int|
            0 <= k < commits.len() ==> store.has_commit(
                (#[trigger] commits[k]).sha,
                store.release_ids(project_id),
            ),
    ensures
        ingestion(rules, cache, store, project_id, commits) == (Outcome {
            store,
            cache,
            result: Ok(
                IngestionReportView { created: Seq::empty(), already_present: shas(commits) },
            ),
        }),
{
    let scope = release_scope(store, project_id)->Some_0;
    lemma_known_commits(
        rules,
        project_id,
        scope,
        commits,
        0,
        store,
        cache,
        IngestionReportView::empty(),
    );
    assert(Seq::<Seq<char>>::empty() + shas(commits).skip(0) =~= shas(commits));
}

/// What a second run reports after a first run with this result: the same
/// error, or every commit from `position` on as present, after those that
/// `report` holds.
pub open spec fn repeated_result(
    first: Result<IngestionReportView, IngestErrorView>,
    commits: Seq<FetchedCommitView>,
    position: int,
    report: IngestionReportView,
) -> Result<IngestionReportView, IngestErrorView> {
    match first {
        Ok(r) => Ok(
            IngestionReportView {
                created: report.created,
                already_present: report.already_present + shas(commits).skip(position),
            },
        ),
        Err(e) => Err(e),
    }
}

/// Ingesting the commits from `position` on once more, on what the first
/// time left behind, changes nothing: a commit that was there or was created
/// is found, and a commit on which the first time failed fails again.
pub proof fn lemma_ingest_again(
    rules: Seq<AliasRuleView>,
    project_id: i32,
    scope: ReleaseScopeView,
    commits: Seq<FetchedCommitView>,
    position: int,
    store: StoreView,
    cache: Map<IdentityView, i32>,
    report: IngestionReportView,
    again: IngestionReportView,
)
    requires
        0 <= position <= commits.len(),
        scope.all_release_ids.contains(scope.master_release_id),
    ensures
        ({
            let first = ingest_from(
                rules,
                project_id,
                scope,
                commits,
                position,
                store,
                cache,
                report,
            );
            ingest_from(
                rules,
                project_id,
                scope,
                commits,
                position,
                first.store,
                first.cache,
                again,
            ) == (Outcome {
                store: first.store,
                cache: first.cache,
                result: repeated_result(first.result, commits, position, again),
            })
        }),
    decreases commits.len() - position,
{
    let ids = scope.all_release_ids;
    let first = ingest_from(rules, project_id, scope, commits, position, store, cache, report);
    let rest = shas(commits).skip(position);
    if position < commits.len() {
        let commit = commits[position];
        let noted = again.with_present(commit.sha);
        assert(noted.already_present + shas(commits).skip(position + 1) =~= again.already_present
            + rest);
        if store.has_commit(commit.sha, ids) {
            let present = report.with_present(commit.sha);
            lemma_ingest_from(rules, project_id, scope, commits, position + 1, store, cache, present);
            lemma_has_commit_kept(store, first.store, commit.sha, ids);
            lemma_ingest_again(
                rules,
                project_id,
                scope,
                commits,
                position + 1,
                store,
                cache,
                present,
                noted,
            );
        } else {
            let author = author_for(rules, cache, store, commit.raw_identity());
            match author.id {
                Some(author_id) => {
                    let grown = author.store.with_commit(attached_commit(commit, author_id, scope));
                    let created = report.with_created(commit.sha);
                    assert(grown.commits[author.store.commits.len() as int] == attached_commit(
                        commit,
                        author_id,
                        scope,
                    ));
                    assert(grown.has_commit(commit.sha, ids));
                    lemma_ingest_from(
                        rules,
                        project_id,
                        scope,
                        commits,
                        position + 1,
                        grown,
                        author.cache,
                        created,
                    );
                    lemma_has_commit_kept(grown, first.store, commit.sha, ids);
                    lemma_ingest_again(
                        rules,
                        project_id,
                        scope,
                        commits,
                        position + 1,
                        grown,
                        author.cache,
                        created,
                        noted,
                    );
                },
                None => {},
            }
        }
    } else {
        assert(again.already_present + rest =~= again.already_present);
    }
}

/// **Idempotence.** A second run on the same fetched commits, with the same
/// alias table and what the first run remembered, creates no row: it leaves
/// the store and what is remembered as the first run left them. After a
/// first run that succeeded it reports every commit as present and none as
/// created; after one that failed it fails with the same error.
pub proof fn law_idempotence(
    rules: Seq<AliasRuleView>,
    cache: Map<IdentityView, i32>,
    store: StoreView,
    project_id: i32,
    commits: Seq<FetchedCommitView>,
)
    ensures
        ({
            let first = ingestion(rules, cache, store, project_id, commits);
            ingestion(rules, first.cache, first.store, project_id, commits) == (Outcome {
                store: first.store,
                cache: first.cache,
                result: repeated_result(first.result, commits, 0, IngestionReportView::empty()),
            })
        }),
{
    let first = ingestion(rules, cache, store, project_id, commits);
    lemma_master_in_scope(store, project_id);
    match release_scope(store, project_id) {
        Some(scope) => {
            let empty = IngestionReportView::empty();
            lemma_ingest_from(rules, project_id, scope, commits, 0, store, cache, empty);
            assert(release_scope(first.store, project_id) == Some(scope));
            lemma_ingest_again(rules, project_id, scope, commits, 0, store, cache, empty, empty);
        },
        None => {},
    }
}

/// **Idempotence across runs.** After a run that succeeded, a later run on
/// the same fetched commits, with whatever alias table and whatever it
/// remembers, creates no row: it leaves the store as the first run left it
/// and reports every commit as present and none as created.
pub proof fn law_idempotence_across_runs(
    rules: Seq<AliasRuleView>,
    cache: Map<IdentityView, i32>,
    store: StoreView,
    project_id: i32,
    commits: Seq<FetchedCommitView>,
    later_rules: Seq<AliasRuleView>,
    later_cache: Map<IdentityView, i32>,
)
    requires
        ingestion(rules, cache, store, project_id, commits).result is Ok,
    ensures
        ({
            let first = ingestion(rules, cache, store, project_id, commits);
            ingestion(later_rules, later_cache, first.store, project_id, commits) == (Outcome {
                store: first.store,
                cache: later_cache,
                result: Ok(
                    IngestionReportView { created: Seq::empty(), already_present: shas(commits) },
                ),
            })
        }),
{
    let first = ingestion(rules, cache, store, project_id, commits);
    lemma_master_in_scope(store, project_id);
    let scope = release_scope(store, project_id)->Some_0;
    lemma_ingest_from(
        rules,
        project_id,
        scope,
        commits,
        0,
        store,
        cache,
        IngestionReportView::empty(),
    );
    assert(release_scope(first.store, project_id) == Some(scope));
    law_known_commits_change_nothing(later_rules, later_cache, first.store, project_id, commits);
}

/// A run of the commits from `position` on that fails, fails with a
/// persistence error that names the project and one of those commits.
pub proof fn lemma_ingest_from_errors(
    rules: Seq<AliasRuleView>,
    project_id: i32,
    scope: ReleaseScopeView,
    commits: Seq<FetchedCommitView>,
    position: int,
    store: StoreView,
    cache: Map<IdentityView, i32>,
    report: IngestionReportView,
)
    requires
        0 <= position,
    ensures
        ingest_from(
            rules,
            project_id,
            scope,
            commits,
            position,
            store,
            cache,
            report,
        ).result matches Err(e) ==> exists|k: int|
            position <= k < commits.len() && e == (IngestErrorView::Persistence {
                project_id,
                sha: Some((#[trigger] commits[k]).sha),
            }),
    decreases commits.len() - position,
{
    if position < commits.len() {
        let commit = commits[position];
        if store.has_commit(commit.sha, scope.all_release_ids) {
            lemma_ingest_from_errors(
                rules,
                project_id,
                scope,
                commits,
                position + 1,
                store,
                cache,
                report.with_present(commit.sha),
            );
        } else {
            let author = author_for(rules, cache, store, commit.raw_identity());
            match author.id {
                Some(author_id) => {
                    lemma_ingest_from_errors(
                        rules,
                        project_id,
                        scope,
                        commits,
                        position + 1,
                        author.store.with_commit(attached_commit(commit, author_id, scope)),
                        author.cache,
                        report.with_created(commit.sha),
                    );
                },
                None => {
                    assert(commits[position].sha == commit.sha);
                },
            }
        }
    }
}

/// **Errors.** A run fails with a configuration error exactly where the
/// project has no master release. Any other failure is a persistence error
/// that names the project and the fetched commit on which the store failed.
pub proof fn law_error_kinds(
    rules: Seq<AliasRuleView>,
    cache: Map<IdentityView, i32>,
    store: StoreView,
    project_id: i32,
    commits: Seq<FetchedCommitView>,
)
    ensures
        ({
            let result = ingestion(rules, cache, store, project_id, commits).result;
            &&& release_scope(store, project_id) is None <==> result == Err::<
                IngestionReportView,
                IngestErrorView,
            >(IngestErrorView::Configuration { project_id })
            &&& release_scope(store, project_id) is Some ==> (result matches Err(e) ==> exists|
                k: int,
            |
                0 <= k < commits.len() && e == (IngestErrorView::Persistence {
                    project_id,
                    sha: Some((#[trigger] commits[k]).sha),
                }))
        }),
{
    match release_scope(store, project_id) {
        Some(scope) => {
            lemma_ingest_from_errors(
                rules,
                project_id,
                scope,
                commits,
                0,
                store,
                cache,
                IngestionReportView::empty(),
            );
        },
        None => {},
    }
}

/// The commits that a run added are commits that were fetched from
/// `position` on, each by the author that the store finds under the
/// canonical identity of the fetched commit.
pub open spec fn authors_are_canonical(
    rules: Seq<AliasRuleView>,
    commits: Seq<FetchedCommitView>,
    position: int,
    store: StoreView,
    after: StoreView,
) -> bool {
    forall|j: int|
        store.commits.len() <= j < after.commits.len() ==> exists|k: int|
            position <= k < commits.len() && (#[trigger] commits[k]).sha == (
            #[trigger] after.commits[j]).sha && after.find_author(
                canonical_identity(rules, commits[k].raw_identity()),
            ) == Some(after.commits[j].author_id)
}

/// Ingesting the commits from `position` on keeps what is remembered in
/// agreement with the store and gives each commit it adds its canonical
/// author.
pub proof fn lemma_ingest_keeps_agreement(
    rules: Seq<AliasRuleView>,
    project_id: i32,
    scope: ReleaseScopeView,
    commits: Seq<FetchedCommitView>,
    position: int,
    store: StoreView,
    cache: Map<IdentityView, i32>,
    report: IngestionReportView,
)
    requires
        0 <= position,
        cache_agrees(cache, store),
    ensures
        ({
            let out = ingest_from(
                rules,
                project_id,
                scope,
                commits,
                position,
                store,
                cache,
                report,
            );
            &&& extends(out.store, store)
            &&& cache_agrees(out.cache, out.store)
            &&& authors_are_canonical(rules, commits, position, store, out.store)
        }),
    decreases commits.len() - position,
{
    let out = ingest_from(rules, project_id, scope, commits, position, store, cache, report);
    if position < commits.len() {
        let commit = commits[position];
        if store.has_commit(commit.sha, scope.all_release_ids) {
            lemma_ingest_keeps_agreement(
                rules,
                project_id,
                scope,
                commits,
                position + 1,
                store,
                cache,
                report.with_present(commit.sha),
            );
        } else {
            let canonical = canonical_identity(rules, commit.raw_identity());
            let author = author_for(rules, cache, store, commit.raw_identity());
            law_resolution_agrees(rules, cache, store, commit.raw_identity());
            match author.id {
                Some(author_id) => {
                    let row = attached_commit(commit, author_id, scope);
                    let grown = author.store.with_commit(row);
                    let at = store.commits.len() as int;
                    assert(cache_agrees(author.cache, grown));
                    lemma_ingest_keeps_agreement(
                        rules,
                        project_id,
                        scope,
                        commits,
                        position + 1,
                        grown,
                        author.cache,
                        report.with_created(commit.sha),
                    );
                    assert(grown.commits[at] == row);
                    assert(out.store.commits[at] == row);
                    assert(grown.find_author(canonical) == Some(author_id));
                    lemma_find_author_kept(grown, out.store, canonical);
                    assert forall|j: int|
                        store.commits.len() <= j < out.store.commits.len() implies exists|k: int|
                        position <= k < commits.len() && (#[trigger] commits[k]).sha == (
                        #[trigger] out.store.commits[j]).sha && out.store.find_author(
                            canonical_identity(rules, commits[k].raw_identity()),
                        ) == Some(out.store.commits[j].author_id) by {
                        if j == at {
                            assert(commits[position].sha == out.store.commits[j].sha);
                        } else {
                            let k = choose|k: int|
                                position + 1 <= k < commits.len() && (#[trigger] commits[k]).sha
                                    == out.store.commits[j].sha && out.store.find_author(
                                    canonical_identity(rules, commits[k].raw_identity()),
                                ) == Some(out.store.commits[j].author_id);
                            assert(position <= k < commits.len() && commits[k].sha
                                == out.store.commits[j].sha);
                        }
                    }
                },
                None => {},
            }
        }
    }
}

/// **Canonical authors.** Where every remembered id is the id under which
/// the store finds its identity, this stays so through a run, and every
/// commit that the run adds is a fetched commit by the author that the store
/// then finds under the canonical identity of the fetched commit: all
/// spellings of one identity lead to one author.
pub proof fn law_authors_are_canonical(
    rules: Seq<AliasRuleView>,
    cache: Map<IdentityView, i32>,
    store: StoreView,
    project_id: i32,
    commits: Seq<FetchedCommitView>,
)
    requires
        cache_agrees(cache, store),
    ensures
        ({
            let out = ingestion(rules, cache, store, project_id, commits);
            &&& cache_agrees(out.cache, out.store)
            &&& authors_are_canonical(rules, commits, 0, store, out.store)
        }),
{
    match release_scope(store, project_id) {
        Some(scope) => {
            lemma_ingest_keeps_agreement(
                rules,
                project_id,
                scope,
                commits,
                0,
                store,
                cache,
                IngestionReportView::empty(),
            );
        },
        None => {},
    }
}

/// No hash occurs twice among the commits attached to the releases
/// `release_ids`.
pub open spec fn unique_within(store: StoreView, release_ids: Seq<i32>) -> bool {
    forall|i: int, j: int|
        0 <= i < j < store.commits.len() && release_ids.contains(
            (#[trigger] store.commits[i]).release_id,
        ) && release_ids.contains((#[trigger] store.commits[j]).release_id)
            ==> store.commits[i].sha != store.commits[j].sha
}

/// Ingesting the commits from `position` on keeps the hashes within the
/// scope free of duplicates.
pub proof fn lemma_ingest_keeps_unique(
    rules: Seq<AliasRuleView>,
    project_id: i32,
    scope: ReleaseScopeView,
    commits: Seq<FetchedCommitView>,
    position: int,
    store: StoreView,
    cache: Map<IdentityView, i32>,
    report: IngestionReportView,
)
    requires
        0 <= position,
        unique_within(store, scope.all_release_ids),
    ensures
        unique_within(
            ingest_from(rules, project_id, scope, commits, position, store, cache, report).store,
            scope.all_release_ids,
        ),
    decreases commits.len() - position,
{
    let ids = scope.all_release_ids;
    if position < commits.len() {
        let commit = commits[position];
        if store.has_commit(commit.sha, ids) {
            lemma_ingest_keeps_unique(
                rules,
                project_id,
                scope,
                commits,
                position + 1,
                store,
                cache,
                report.with_present(commit.sha),
            );
        } else {
            let author = author_for(rules, cache, store, commit.raw_identity());
            match author.id {
                Some(author_id) => {
                    let grown = author.store.with_commit(attached_commit(commit, author_id, scope));
                    assert forall|i: int, j: int|
                        0 <= i < j < grown.commits.len() && ids.contains(
                            (#[trigger] grown.commits[i]).release_id,
                        ) && ids.contains(
                            (#[trigger] grown.commits[j]).release_id,
                        ) implies grown.commits[i].sha != grown.commits[j].sha by {
                        assert(grown.commits[i] == store.commits[i]);
                        if j < store.commits.len() {
                            assert(grown.commits[j] == store.commits[j]);
                        }
                    }
                    lemma_ingest_keeps_unique(
                        rules,
                        project_id,
                        scope,
                        commits,
                        position + 1,
                        grown,
                        author.cache,
                        report.with_created(commit.sha),
                    );
                },
                None => {},
            }
        }
    }
}

/// **No duplicate commits.** Where no hash occurs twice among the commits of
/// a project's releases, none does after a run, however it ends.
pub proof fn law_no_duplicates(
    rules: Seq<AliasRuleView>,
    cache: Map<IdentityView, i32>,
    store: StoreView,
    project_id: i32,
    commits: Seq<FetchedCommitView>,
)
    requires
        unique_within(store, store.release_ids(project_id)),
    ensures
        unique_within(
            ingestion(rules, cache, store, project_id, commits).store,
            store.release_ids(project_id),
        ),
{
    match release_scope(store, project_id) {
        Some(scope) => {
            lemma_ingest_keeps_unique(
                rules,
                project_id,
                scope,
                commits,
                0,
                store,
                cache,
                IngestionReportView::empty(),
            );
        },
        None => {},
    }
}

/// **Attachment, whatever the store.** Whenever an engine asks for a commit
/// to be created, it is the current fetched commit, on the master release
/// that the store named at the start of the run; and no decision taken
/// while commits are dealt with changes the project, the fetched commits or
/// the scope.
pub proof fn law_engine_creates_on_master(
    engine: EngineView,
    authors: AuthorStoreView,
    reply: StoreReplyView,
)
    ensures
        engine.step(authors, reply).0 matches StepView::Continue(next, request) ==> {
            &&& request == next.awaited()
            &&& next.project_id == engine.project_id
            &&& next.fetched == engine.fetched
            &&& engine.in_commits() ==> next.scope == engine.scope
            &&& request matches StoreRequestView::CreateCommit { commit } ==> {
                &&& next.has_current()
                &&& commit.sha == next.current().sha
                &&& commit.release_id == next.scope.master_release_id
            }
        },
{
}

} // verus!
