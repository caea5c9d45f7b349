//! The releases of a project that matter to ingestion.

use crate::model::Project;
use crate::report::{IngestError, IngestErrorView};
use crate::store::{contains_id, first_release, release_ids_upto, Store, StoreView};
use crate::model::ReleaseView;
use vstd::prelude::*;

verus! {

/// The version label of the release that stands for the untagged, ongoing
/// history of a project.
pub open spec fn master_label() -> Seq<char> {
    "master"@
}

/// The version label of the master release.
pub fn master_version() -> (r: String)
    ensures
        r@ == master_label(),
{
    "master".to_string()
}

/// The master release of a project and the ids of all its releases.
#[derive(Clone, Debug, PartialEq, Eq)]
pub struct ReleaseScope {
    pub master_release_id: i32,
    pub all_release_ids: Vec<i32>,
}

/// The mathematical value of a [`ReleaseScope`].
pub struct ReleaseScopeView {
    pub master_release_id: i32,
    pub all_release_ids: Seq<i32>,
}

impl View for ReleaseScope {
    type V = ReleaseScopeView;

    open spec fn view(&self) -> ReleaseScopeView {
        ReleaseScopeView {
            master_release_id: self.master_release_id,
            all_release_ids: self.all_release_ids@,
        }
    }
}

/// The scope of `project_id` in `store`: its first release labelled
/// `master` and all its release ids; `None` where it has no master release.
pub open spec fn release_scope(store: StoreView, project_id: i32) -> Option<ReleaseScopeView> {
    match store.find_release(project_id, master_label()) {
        Some(master) => Some(
            ReleaseScopeView {
                master_release_id: master,
                all_release_ids: store.release_ids(project_id),
            },
        ),
        None => None,
    }
}

/// The release at a position below `upto` that belongs to the project has
/// its id among the ids listed for the project.
pub proof fn lemma_release_ids_hold(
    releases: Seq<ReleaseView>,
    project_id: i32,
    upto: int,
    at: int,
)
    requires
        0 <= at < upto <= releases.len(),
        releases[at].project_id == project_id,
    ensures
        release_ids_upto(releases, project_id, upto).contains(releases[at].id),
    decreases upto,
{
    let before = release_ids_upto(releases, project_id, upto - 1);
    if at < upto - 1 {
        lemma_release_ids_hold(releases, project_id, upto - 1, at);
        if releases[upto - 1].project_id == project_id {
            let i = choose|i: int| 0 <= i < before.len() && before[i] == releases[at].id;
            assert(before.push(releases[upto - 1].id)[i] == releases[at].id);
        }
    } else {
        assert(before.push(releases[at].id)[before.len() as int] == releases[at].id);
    }
}

/// The release that `first_release` finds is a release of the project with
/// the label asked for.
pub proof fn lemma_first_release(
    releases: Seq<ReleaseView>,
    project_id: i32,
    version: Seq<char>,
    from: int,
)
    requires
        0 <= from,
    ensures
        match first_release(releases, project_id, version, from) {
            Some(i) => from <= i < releases.len() && releases[i].project_id == project_id
                && releases[i].version == version,
            None => forall|k: int|
                from <= k < releases.len() ==> !((#[trigger] releases[k]).project_id == project_id
                    && releases[k].version == version),
        },
    decreases releases.len() - from,
{
    if from < releases.len() && !(releases[from].project_id == project_id
        && releases[from].version == version) {
        lemma_first_release(releases, project_id, version, from + 1);
    }
}

/// The master release of a project is one of its releases.
pub proof fn lemma_master_in_scope(store: StoreView, project_id: i32)
    ensures
        match release_scope(store, project_id) {
            Some(scope) => scope.all_release_ids.contains(scope.master_release_id),
            None => true,
        },
{
    lemma_first_release(store.releases, project_id, master_label(), 0);
    match first_release(store.releases, project_id, master_label(), 0) {
        Some(i) => {
            lemma_release_ids_hold(store.releases, project_id, store.releases.len() as int, i);
        },
        None => {},
    }
}

impl ReleaseScope {
    /// The scope of `project` in `store`.
    ///
    /// Fails with a configuration error exactly where the project has no
    /// release labelled `master`. The ids listed include the master's.
    pub fn resolve(store: &Store, project: &Project) -> (r: Result<ReleaseScope, IngestError>)
        ensures
            match r {
                Ok(scope) => release_scope(store@, project.id) == Some(scope@)
                    && scope@.all_release_ids.contains(scope@.master_release_id),
                Err(e) => release_scope(store@, project.id) is None && e@ == (
                IngestErrorView::Configuration { project_id: project.id }),
            },
    {
        let label = master_version();
        match store.find_release(project.id, &label) {
            Some(master) => {
                proof {
                    lemma_master_in_scope(store@, project.id);
                }
                Ok(
                    ReleaseScope {
                        master_release_id: master,
                        all_release_ids: store.release_ids(project.id),
                    },
                )
            },
            None => Err(IngestError::Configuration { project_id: project.id }),
        }
    }

    /// Whether `release_id` is one of the project's releases.
    pub fn covers(&self, release_id: i32) -> (r: bool)
        ensures
            r == self@.all_release_ids.contains(release_id),
    {
        contains_id(&self.all_release_ids, release_id)
    }
}

} // verus!
