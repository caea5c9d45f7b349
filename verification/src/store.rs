//! The persisted tables, held in memory.
//!
//! [`StoreView`] is the mathematical value of the tables, and its functions
//! say what a store that keeps its word answers to each request. [`Store`]
//! is such a store: it keeps the three tables in memory, for runs without a
//! database, and is the measure against which the laws of ingestion are
//! stated.

use crate::model::{
    Author, AuthorView, Commit, CommitView, Identity, IdentityView, Release, ReleaseView,
};
use crate::protocol::{StoreReply, StoreReplyView, StoreRequest, StoreRequestView};
use vstd::prelude::*;

verus! {

/// The mathematical value of the tables.
pub struct StoreView {
    pub authors: Seq<AuthorView>,
    pub releases: Seq<ReleaseView>,
    pub commits: Seq<CommitView>,
    /// The highest author id handed out so far.
    pub last_author_id: i32,
}

/// The position of the first release at or after `from` that belongs to
/// `project_id` and carries the label `version`.
pub open spec fn first_release(
    releases: Seq<ReleaseView>,
    project_id: i32,
    version: Seq<char>,
    from: int,
) -> Option<int>
    decreases releases.len() - from,
{
    if from < 0 || from >= releases.len() {
        None
    } else if releases[from].project_id == project_id && releases[from].version == version {
        Some(from)
    } else {
        first_release(releases, project_id, version, from + 1)
    }
}

/// The position of the first author at or after `from` that is recorded
/// under exactly `identity`.
pub open spec fn first_author(authors: Seq<AuthorView>, identity: IdentityView, from: int) -> Option<
    int,
>
    decreases authors.len() - from,
{
    if from < 0 || from >= authors.len() {
        None
    } else if authors[from].identity() == identity {
        Some(from)
    } else {
        first_author(authors, identity, from + 1)
    }
}

/// The ids of those among the first `upto` releases that belong to
/// `project_id`, in table order.
pub open spec fn release_ids_upto(releases: Seq<ReleaseView>, project_id: i32, upto: int) -> Seq<
    i32,
>
    decreases upto,
{
    if upto <= 0 || upto > releases.len() {
        Seq::empty()
    } else {
        let before = release_ids_upto(releases, project_id, upto - 1);
        if releases[upto - 1].project_id == project_id {
            before.push(releases[upto - 1].id)
        } else {
            before
        }
    }
}

/// `later` holds everything that `earlier` holds, in the same places: the
/// same releases, and the authors and commits of `earlier` at the head of
/// its own.
pub open spec fn extends(later: StoreView, earlier: StoreView) -> bool {
    &&& later.releases == earlier.releases
    &&& earlier.authors.len() <= later.authors.len()
    &&& forall|i: int| 0 <= i < earlier.authors.len() ==> later.authors[i] == earlier.authors[i]
    &&& earlier.commits.len() <= later.commits.len()
    &&& forall|i: int| 0 <= i < earlier.commits.len() ==> later.commits[i] == earlier.commits[i]
}

/// A commit that a store holds within some releases is still held there by
/// every store that extends it.
pub proof fn lemma_has_commit_kept(
    earlier: StoreView,
    later: StoreView,
    sha: Seq<char>,
    release_ids: Seq<i32>,
)
    requires
        extends(later, earlier),
        earlier.has_commit(sha, release_ids),
    ensures
        later.has_commit(sha, release_ids),
{
    let k = choose|k: int|
        0 <= k < earlier.commits.len() && (#[trigger] earlier.commits[k]).sha == sha
            && release_ids.contains(earlier.commits[k].release_id);
    assert(later.commits[k] == earlier.commits[k]);
}

/// What `first_author` finds is a position of the table, and the author
/// there is recorded under the identity.
pub proof fn lemma_first_author(authors: Seq<AuthorView>, identity: IdentityView, from: int)
    requires
        0 <= from,
    ensures
        match first_author(authors, identity, from) {
            Some(i) => from <= i < authors.len() && authors[i].identity() == identity,
            None => forall|k: int|
                from <= k < authors.len() ==> (#[trigger] authors[k]).identity() != identity,
        },
    decreases authors.len() - from,
{
    if from < authors.len() && authors[from].identity() != identity {
        lemma_first_author(authors, identity, from + 1);
    }
}

/// Adding an author at the end changes what is found for an identity only
/// where nothing was found before and the new author carries the identity.
pub proof fn lemma_first_author_push(
    authors: Seq<AuthorView>,
    author: AuthorView,
    identity: IdentityView,
    from: int,
)
    requires
        0 <= from <= authors.len(),
    ensures
        first_author(authors.push(author), identity, from) == match first_author(
            authors,
            identity,
            from,
        ) {
            Some(i) => Some(i),
            None => if author.identity() == identity {
                Some(authors.len() as int)
            } else {
                None
            },
        },
    decreases authors.len() - from,
{
    let longer = authors.push(author);
    if from < authors.len() {
        assert(longer[from] == authors[from]);
        if authors[from].identity() != identity {
            lemma_first_author_push(authors, author, identity, from + 1);
        }
    } else {
        assert(longer[from] == author);
        assert(first_author(longer, identity, from + 1) is None);
    }
}

/// Among the authors from `from` on, an author found in a table is found
/// in every table that starts with that table.
pub proof fn lemma_first_author_kept(
    shorter: Seq<AuthorView>,
    longer: Seq<AuthorView>,
    identity: IdentityView,
    from: int,
)
    requires
        0 <= from,
        shorter.len() <= longer.len(),
        forall|i: int| 0 <= i < shorter.len() ==> longer[i] == shorter[i],
        first_author(shorter, identity, from) is Some,
    ensures
        first_author(longer, identity, from) == first_author(shorter, identity, from),
    decreases shorter.len() - from,
{
    if from < shorter.len() && shorter[from].identity() != identity {
        lemma_first_author_kept(shorter, longer, identity, from + 1);
    }
}

/// An author that a store finds under an identity is found, under the same
/// id, by every store that extends it.
pub proof fn lemma_find_author_kept(earlier: StoreView, later: StoreView, identity: IdentityView)
    requires
        extends(later, earlier),
        earlier.find_author(identity) is Some,
    ensures
        later.find_author(identity) == earlier.find_author(identity),
{
    lemma_first_author_kept(earlier.authors, later.authors, identity, 0);
    lemma_first_author(earlier.authors, identity, 0);
}

impl StoreView {
    /// The tables without rows.
    pub open spec fn empty() -> StoreView {
        StoreView {
            authors: Seq::empty(),
            releases: Seq::empty(),
            commits: Seq::empty(),
            last_author_id: 0,
        }
    }

    /// Author ids are pairwise distinct and none exceeds the highest id
    /// handed out.
    pub open spec fn wf(self) -> bool {
        &&& forall|i: int|
            0 <= i < self.authors.len() ==> (#[trigger] self.authors[i]).id
                <= self.last_author_id
        &&& forall|i: int, j: int|
            0 <= i < j < self.authors.len() ==> (#[trigger] self.authors[i]).id != (
            #[trigger] self.authors[j]).id
    }

    /// The id of the first release of `project_id` labelled `version`.
    pub open spec fn find_release(self, project_id: i32, version: Seq<char>) -> Option<i32> {
        match first_release(self.releases, project_id, version, 0) {
            Some(i) => Some(self.releases[i].id),
            None => None,
        }
    }

    /// The ids of all releases of `project_id`, in table order.
    pub open spec fn release_ids(self, project_id: i32) -> Seq<i32> {
        release_ids_upto(self.releases, project_id, self.releases.len() as int)
    }

    /// Whether a commit with hash `sha` is attached to one of the releases
    /// `release_ids`.
    pub open spec fn has_commit(self, sha: Seq<char>, release_ids: Seq<i32>) -> bool {
        exists|k: int|
            0 <= k < self.commits.len() && (#[trigger] self.commits[k]).sha == sha
                && release_ids.contains(self.commits[k].release_id)
    }

    /// The id of the first author recorded under exactly `identity`.
    pub open spec fn find_author(self, identity: IdentityView) -> Option<i32> {
        match first_author(self.authors, identity, 0) {
            Some(i) => Some(self.authors[i].id),
            None => None,
        }
    }

    /// Whether an author id is left to hand out.
    pub open spec fn can_create_author(self) -> bool {
        self.last_author_id < i32::MAX
    }

    /// The id that the next created author gets.
    pub open spec fn next_author_id(self) -> i32 {
        (self.last_author_id + 1) as i32
    }

    /// The tables after an author with the next id was recorded under
    /// `identity`.
    pub open spec fn with_new_author(self, identity: IdentityView) -> StoreView {
        StoreView {
            authors: self.authors.push(
                AuthorView {
                    id: self.next_author_id(),
                    name: identity.name,
                    email: identity.email,
                },
            ),
            last_author_id: self.next_author_id(),
            ..self
        }
    }

    /// The tables after `author` was added under its own id.
    pub open spec fn with_author(self, author: AuthorView) -> StoreView {
        StoreView { authors: self.authors.push(author), last_author_id: author.id, ..self }
    }

    /// The tables after `release` was added.
    pub open spec fn with_release(self, release: ReleaseView) -> StoreView {
        StoreView { releases: self.releases.push(release), ..self }
    }

    /// The tables after `commit` was added.
    pub open spec fn with_commit(self, commit: CommitView) -> StoreView {
        StoreView { commits: self.commits.push(commit), ..self }
    }

    /// What a store that holds these tables answers to `request`.
    ///
    /// Only the creation of an author can fail, and only for want of an id.
    pub open spec fn reply_to(self, request: StoreRequestView) -> StoreReplyView {
        match request {
            StoreRequestView::FindRelease { project_id, version } => StoreReplyView::Release(
                self.find_release(project_id, version),
            ),
            StoreRequestView::ListReleaseIds { project_id } => StoreReplyView::ReleaseIds(
                self.release_ids(project_id),
            ),
            StoreRequestView::FindCommit { sha, release_ids } => StoreReplyView::Commit(
                self.has_commit(sha, release_ids),
            ),
            StoreRequestView::FindAuthor { identity } => StoreReplyView::Author(
                self.find_author(identity),
            ),
            StoreRequestView::CreateAuthor { identity } => if self.can_create_author() {
                StoreReplyView::AuthorCreated(self.next_author_id())
            } else {
                StoreReplyView::Failed
            },
            StoreRequestView::CreateCommit { commit } => StoreReplyView::CommitCreated,
        }
    }

    /// The tables after a store that held these has carried out `request`.
    pub open spec fn after(self, request: StoreRequestView) -> StoreView {
        match request {
            StoreRequestView::CreateAuthor { identity } => if self.can_create_author() {
                self.with_new_author(identity)
            } else {
                self
            },
            StoreRequestView::CreateCommit { commit } => self.with_commit(commit),
            _ => self,
        }
    }
}

/// The three tables in memory.
#[derive(Clone, Debug, PartialEq, Eq)]
pub struct Store {
    pub authors: Vec<Author>,
    pub releases: Vec<Release>,
    pub commits: Vec<Commit>,
    pub last_author_id: i32,
}

impl View for Store {
    type V = StoreView;

    open spec fn view(&self) -> StoreView {
        StoreView {
            authors: self.authors.deep_view(),
            releases: self.releases.deep_view(),
            commits: self.commits.deep_view(),
            last_author_id: self.last_author_id,
        }
    }
}

/// Whether `id` occurs in `ids`.
pub fn contains_id(ids: &Vec<i32>, id: i32) -> (r: bool)
    ensures
        r == ids@.contains(id),
{
    let mut i: usize = 0;
    while i < ids.len()
        invariant
            0 <= i <= ids.len(),
            forall|k: int| 0 <= k < i ==> ids@[k] != id,
        decreases ids.len() - i,
    {
        if ids[i] == id {
            return true;
        }
        i += 1;
    }
    false
}

impl Store {
    /// The store without rows.
    pub fn new() -> (r: Store)
        ensures
            r@ == StoreView::empty(),
            r@.wf(),
    {
        let r = Store {
            authors: Vec::new(),
            releases: Vec::new(),
            commits: Vec::new(),
            last_author_id: 0,
        };
        assert(r@.authors =~= Seq::empty());
        assert(r@.releases =~= Seq::empty());
        assert(r@.commits =~= Seq::empty());
        r
    }

    /// Adds `release` at the end of its table.
    pub fn add_release(&mut self, release: Release)
        ensures
            final(self)@ == old(self)@.with_release(release@),
    {
        self.releases.push(release);
        assert(self.releases.deep_view() =~= old(self).releases.deep_view().push(release@));
    }

    /// Adds `author` under its own id, if that id is above every id handed
    /// out so far; says whether it did.
    pub fn add_author(&mut self, author: Author) -> (added: bool)
        ensures
            added == (author.id > old(self)@.last_author_id),
            added ==> final(self)@ == old(self)@.with_author(author@),
            !added ==> final(self)@ == old(self)@,
            old(self)@.wf() ==> final(self)@.wf(),
    {
        if author.id > self.last_author_id {
            self.last_author_id = author.id;
            self.authors.push(author);
            assert(self.authors.deep_view() =~= old(self).authors.deep_view().push(author@));
            true
        } else {
            false
        }
    }

    /// The id of the first release of `project_id` labelled `version`.
    pub fn find_release(&self, project_id: i32, version: &String) -> (r: Option<i32>)
        ensures
            r == self@.find_release(project_id, version@),
    {
        let mut i: usize = 0;
        while i < self.releases.len()
            invariant
                0 <= i <= self.releases.len(),
                first_release(self@.releases, project_id, version@, 0) == first_release(
                    self@.releases,
                    project_id,
                    version@,
                    i as int,
                ),
            decreases self.releases.len() - i,
        {
            let release = &self.releases[i];
            assert(self@.releases[i as int] == release@);
            if release.project_id == project_id && release.version == *version {
                return Some(release.id);
            }
            i += 1;
        }
        None
    }

    /// The ids of all releases of `project_id`, in table order.
    pub fn release_ids(&self, project_id: i32) -> (r: Vec<i32>)
        ensures
            r@ == self@.release_ids(project_id),
    {
        let mut ids: Vec<i32> = Vec::new();
        let mut i: usize = 0;
        while i < self.releases.len()
            invariant
                0 <= i <= self.releases.len(),
                ids@ == release_ids_upto(self@.releases, project_id, i as int),
            decreases self.releases.len() - i,
        {
            let release = &self.releases[i];
            assert(self@.releases[i as int] == release@);
            if release.project_id == project_id {
                ids.push(release.id);
            }
            i += 1;
        }
        ids
    }

    /// Whether a commit with hash `sha` is attached to one of the releases
    /// `release_ids`.
    pub fn has_commit(&self, sha: &String, release_ids: &Vec<i32>) -> (r: bool)
        ensures
            r == self@.has_commit(sha@, release_ids@),
    {
        let mut i: usize = 0;
        while i < self.commits.len()
            invariant
                0 <= i <= self.commits.len(),
                forall|k: int|
                    0 <= k < i ==> !((#[trigger] self@.commits[k]).sha == sha@
                        && release_ids@.contains(self@.commits[k].release_id)),
            decreases self.commits.len() - i,
        {
            let commit = &self.commits[i];
            assert(self@.commits[i as int] == commit@);
            if commit.sha == *sha && contains_id(release_ids, commit.release_id) {
                return true;
            }
            i += 1;
        }
        false
    }

    /// The id of the first author recorded under exactly `identity`.
    pub fn find_author(&self, identity: &Identity) -> (r: Option<i32>)
        ensures
            r == self@.find_author(identity@),
    {
        let mut i: usize = 0;
        while i < self.authors.len()
            invariant
                0 <= i <= self.authors.len(),
                first_author(self@.authors, identity@, 0) == first_author(
                    self@.authors,
                    identity@,
                    i as int,
                ),
            decreases self.authors.len() - i,
        {
            let author = &self.authors[i];
            assert(self@.authors[i as int] == author@);
            if author.name == identity.name && author.email == identity.email {
                return Some(author.id);
            }
            i += 1;
        }
        None
    }

    /// Records a new author under `identity` and returns its id, which is
    /// one above the highest handed out so far. Where no id is left, nothing
    /// changes and the result is `None`.
    pub fn create_author(&mut self, identity: &Identity) -> (r: Option<i32>)
        ensures
            old(self)@.can_create_author() ==> r == Some(old(self)@.next_author_id())
                && final(self)@ == old(self)@.with_new_author(identity@),
            !old(self)@.can_create_author() ==> r is None && final(self)@ == old(self)@,
            old(self)@.wf() ==> final(self)@.wf(),
    {
        if self.last_author_id == i32::MAX {
            return None;
        }
        let id: i32 = self.last_author_id + 1;
        let author = Author { id, name: identity.name.clone(), email: identity.email.clone() };
        self.last_author_id = id;
        self.authors.push(author);
        assert(self.authors.deep_view() =~= old(self).authors.deep_view().push(author@));
        Some(id)
    }

    /// Records `commit` at the end of its table.
    pub fn create_commit(&mut self, commit: Commit)
        ensures
            final(self)@ == old(self)@.with_commit(commit@),
    {
        self.commits.push(commit);
        assert(self.commits.deep_view() =~= old(self).commits.deep_view().push(commit@));
    }

    /// Carries out `request` and answers it.
    pub fn perform(&mut self, request: &StoreRequest) -> (reply: StoreReply)
        ensures
            reply@ == old(self)@.reply_to(request@),
            final(self)@ == old(self)@.after(request@),
            old(self)@.wf() ==> final(self)@.wf(),
    {
        match request {
            StoreRequest::FindRelease { project_id, version } => StoreReply::Release(
                self.find_release(*project_id, version),
            ),
            StoreRequest::ListReleaseIds { project_id } => StoreReply::ReleaseIds(
                self.release_ids(*project_id),
            ),
            StoreRequest::FindCommit { sha, release_ids } => StoreReply::Commit(
                self.has_commit(sha, release_ids),
            ),
            StoreRequest::FindAuthor { identity } => StoreReply::Author(self.find_author(identity)),
            StoreRequest::CreateAuthor { identity } => match self.create_author(identity) {
                Some(id) => StoreReply::AuthorCreated(id),
                None => StoreReply::Failed,
            },
            StoreRequest::CreateCommit { commit } => {
                self.create_commit(commit.duplicate());
                StoreReply::CommitCreated
            },
        }
    }
}

} // verus!
