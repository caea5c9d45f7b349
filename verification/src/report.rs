//! What an ingestion run gives back: a report, or the error that ended it.

use vstd::prelude::*;

verus! {

/// Why the ingestion of a project ended early.
#[derive(Clone, Debug, PartialEq, Eq)]
pub enum IngestError {
    /// The project has no release labelled `master`.
    Configuration { project_id: i32 },
    /// The commit list of the project could not be retrieved.
    Transport { project_id: i32 },
    /// The store could not carry out a request. `sha` names the commit that
    /// was being processed, if there was one.
    Persistence { project_id: i32, sha: Option<String> },
}

/// The mathematical value of an [`IngestError`].
pub enum IngestErrorView {
    Configuration { project_id: i32 },
    Transport { project_id: i32 },
    Persistence { project_id: i32, sha: Option<Seq<char>> },
}

impl View for IngestError {
    type V = IngestErrorView;

    open spec fn view(&self) -> IngestErrorView {
        match self {
            IngestError::Configuration { project_id } => IngestErrorView::Configuration {
                project_id: *project_id,
            },
            IngestError::Transport { project_id } => IngestErrorView::Transport {
                project_id: *project_id,
            },
            IngestError::Persistence { project_id, sha } => IngestErrorView::Persistence {
                project_id: *project_id,
                sha: match sha {
                    Some(s) => Some(s@),
                    None => None,
                },
            },
        }
    }
}

impl IngestError {
    /// The project whose ingestion ended with this error.
    pub fn project_id(&self) -> (id: i32)
        ensures
            id == match self@ {
                IngestErrorView::Configuration { project_id } => project_id,
                IngestErrorView::Transport { project_id } => project_id,
                IngestErrorView::Persistence { project_id, .. } => project_id,
            },
    {
        match self {
            IngestError::Configuration { project_id } => *project_id,
            IngestError::Transport { project_id } => *project_id,
            IngestError::Persistence { project_id, .. } => *project_id,
        }
    }
}

/// Which fetched commits were recorded and which were there already, each
/// list in the order in which the commits were fetched.
#[derive(Clone, Debug, PartialEq, Eq)]
pub struct IngestionReport {
    pub created: Vec<String>,
    pub already_present: Vec<String>,
}

/// The mathematical value of an [`IngestionReport`].
pub struct IngestionReportView {
    pub created: Seq<Seq<char>>,
    pub already_present: Seq<Seq<char>>,
}

impl IngestionReportView {
    /// The report of a run that has seen no commit yet.
    pub open spec fn empty() -> IngestionReportView {
        IngestionReportView { created: Seq::empty(), already_present: Seq::empty() }
    }

    /// The report after one more commit was recorded.
    pub open spec fn with_created(self, sha: Seq<char>) -> IngestionReportView {
        IngestionReportView { created: self.created.push(sha), ..self }
    }

    /// The report after one more commit was found to be there already.
    pub open spec fn with_present(self, sha: Seq<char>) -> IngestionReportView {
        IngestionReportView { already_present: self.already_present.push(sha), ..self }
    }
}

impl View for IngestionReport {
    type V = IngestionReportView;

    open spec fn view(&self) -> IngestionReportView {
        IngestionReportView {
            created: self.created.deep_view(),
            already_present: self.already_present.deep_view(),
        }
    }
}

impl IngestionReport {
    /// The report of a run that has seen no commit yet.
    pub fn new() -> (r: IngestionReport)
        ensures
            r@ == IngestionReportView::empty(),
    {
        let r = IngestionReport { created: Vec::new(), already_present: Vec::new() };
        assert(r@.created =~= Seq::empty());
        assert(r@.already_present =~= Seq::empty());
        r
    }

    /// Notes that the commit `sha` was recorded.
    pub fn note_created(&mut self, sha: String)
        ensures
            final(self)@ == old(self)@.with_created(sha@),
    {
        self.created.push(sha);
        assert(self.created.deep_view() =~= old(self).created.deep_view().push(sha@));
    }

    /// Notes that the commit `sha` was there already.
    pub fn note_present(&mut self, sha: String)
        ensures
            final(self)@ == old(self)@.with_present(sha@),
    {
        self.already_present.push(sha);
        assert(self.already_present.deep_view() =~= old(self).already_present.deep_view().push(
            sha@,
        ));
    }

    /// The number of commits recorded.
    pub fn created_count(&self) -> (n: usize)
        ensures
            n == self@.created.len(),
    {
        self.created.len()
    }

    /// The number of commits that were there already.
    pub fn present_count(&self) -> (n: usize)
        ensures
            n == self@.already_present.len(),
    {
        self.already_present.len()
    }
}

} // verus!
