use commit_ingest::alias::AliasResolver;
use commit_ingest::authors::AuthorStore;
use commit_ingest::ingest::ingest;
use commit_ingest::model::{Author, Commit, FetchedCommit, Identity, Project, Release};
use commit_ingest::report::{IngestError, IngestionReport};
use commit_ingest::store::Store;

fn project() -> Project {
    Project { id: 1, name: "P".to_string(), github_name: "owner/p".to_string() }
}

fn authors() -> AuthorStore {
    AuthorStore::new(AliasResolver::new("Al <al@x.com> Al Ex <al@x.com>\n"))
}

fn fetched() -> Vec<FetchedCommit> {
    vec![
        FetchedCommit::new("abc123", "Al", "al@x.com"),
        FetchedCommit::new("def456", "Al Ex", "al@x.com"),
    ]
}

/// Master release 10 and tag release 11 of project 1; the tag holds
/// `abc123`. Release 20 belongs to another project.
fn seeded() -> Store {
    let mut store = Store::new();
    store.add_release(Release { id: 10, project_id: 1, version: "master".to_string() });
    store.add_release(Release { id: 11, project_id: 1, version: "1.0".to_string() });
    store.add_release(Release { id: 20, project_id: 2, version: "master".to_string() });
    assert!(store.add_author(Author {
        id: 1,
        name: "Early".to_string(),
        email: "early@x.com".to_string(),
    }));
    store.create_commit(Commit { sha: "abc123".to_string(), author_id: 1, release_id: 11 });
    store
}

fn on_release(store: &Store, release_id: i32) -> usize {
    store.commits.iter().filter(|c| c.release_id == release_id).count()
}

#[test]
fn tagged_commit_is_skipped_and_new_commit_joins_master() {
    let mut store = seeded();
    let mut authors = authors();
    let report = ingest(&mut store, &mut authors, &project(), fetched());
    assert_eq!(
        report,
        Ok(IngestionReport {
            created: vec!["def456".to_string()],
            already_present: vec!["abc123".to_string()],
        })
    );
    assert_eq!(
        store.commits,
        vec![
            Commit { sha: "abc123".to_string(), author_id: 1, release_id: 11 },
            Commit { sha: "def456".to_string(), author_id: 2, release_id: 10 },
        ]
    );
    assert_eq!(
        store.authors,
        vec![
            Author { id: 1, name: "Early".to_string(), email: "early@x.com".to_string() },
            Author { id: 2, name: "Al".to_string(), email: "al@x.com".to_string() },
        ]
    );
    assert_eq!(authors.cached(&Identity::new("Al", "al@x.com")), Some(2));
}

#[test]
fn both_spellings_share_one_author() {
    let mut store = seeded();
    let mut authors = authors();
    let commits = vec![
        FetchedCommit::new("111", "Al", "al@x.com"),
        FetchedCommit::new("222", "Al Ex", "al@x.com"),
        FetchedCommit::new("333", "Bo", "bo@x.com"),
    ];
    let report = ingest(&mut store, &mut authors, &project(), commits).unwrap();
    assert_eq!(report.created, vec!["111".to_string(), "222".to_string(), "333".to_string()]);
    assert_eq!(store.commits[1].author_id, 2);
    assert_eq!(store.commits[2].author_id, 2);
    assert_eq!(store.commits[3].author_id, 3);
    assert_eq!(store.authors.len(), 3);
}

#[test]
fn second_run_creates_nothing() {
    let mut store = seeded();
    let mut authors = authors();
    assert!(ingest(&mut store, &mut authors, &project(), fetched()).is_ok());
    let after_first = store.clone();
    let again = ingest(&mut store, &mut authors, &project(), fetched());
    assert_eq!(
        again,
        Ok(IngestionReport {
            created: vec![],
            already_present: vec!["abc123".to_string(), "def456".to_string()],
        })
    );
    assert_eq!(store, after_first);
}

#[test]
fn second_run_of_a_new_process_creates_nothing() {
    let mut store = seeded();
    assert!(ingest(&mut store, &mut authors(), &project(), fetched()).is_ok());
    let after_first = store.clone();
    let mut fresh = AuthorStore::new(AliasResolver::empty());
    let again = ingest(&mut store, &mut fresh, &project(), fetched()).unwrap();
    assert_eq!(again.created_count(), 0);
    assert_eq!(again.present_count(), 2);
    assert_eq!(store, after_first);
    assert!(fresh.cache.is_empty());
}

#[test]
fn commit_of_a_tag_is_not_attached_to_master() {
    let mut store = seeded();
    let mut authors = authors();
    let commits = vec![FetchedCommit::new("abc123", "Al", "al@x.com")];
    let report = ingest(&mut store, &mut authors, &project(), commits).unwrap();
    assert_eq!(report.created_count(), 0);
    assert_eq!(report.already_present, vec!["abc123".to_string()]);
    assert_eq!(on_release(&store, 10), 0);
    assert_eq!(store, seeded());
}

#[test]
fn hash_repeated_in_one_fetch_is_created_once() {
    let mut store = seeded();
    let mut authors = authors();
    let commits = vec![
        FetchedCommit::new("def456", "Al", "al@x.com"),
        FetchedCommit::new("def456", "Al Ex", "al@x.com"),
    ];
    let report = ingest(&mut store, &mut authors, &project(), commits).unwrap();
    assert_eq!(report.created, vec!["def456".to_string()]);
    assert_eq!(report.already_present, vec!["def456".to_string()]);
    assert_eq!(on_release(&store, 10), 1);
}

#[test]
fn hash_of_another_project_is_no_duplicate() {
    let mut store = seeded();
    store.create_commit(Commit { sha: "def456".to_string(), author_id: 1, release_id: 20 });
    let mut authors = authors();
    let report = ingest(&mut store, &mut authors, &project(), fetched()).unwrap();
    assert_eq!(report.created, vec!["def456".to_string()]);
    assert_eq!(on_release(&store, 10), 1);
    assert_eq!(on_release(&store, 20), 1);
}

#[test]
fn every_created_commit_is_on_master() {
    let mut store = seeded();
    let mut authors = authors();
    let commits = vec![
        FetchedCommit::new("a1", "Al", "al@x.com"),
        FetchedCommit::new("abc123", "Al", "al@x.com"),
        FetchedCommit::new("b2", "Bo", "bo@x.com"),
        FetchedCommit::new("c3", "Cy", "cy@x.com"),
    ];
    let before = store.commits.len();
    let report = ingest(&mut store, &mut authors, &project(), commits).unwrap();
    assert_eq!(report.created_count(), 3);
    assert_eq!(store.commits.len(), before + 3);
    for commit in &store.commits[before..] {
        assert_eq!(commit.release_id, 10);
    }
    assert_eq!(store.commits[0], Commit { sha: "abc123".to_string(), author_id: 1, release_id: 11 });
}

#[test]
fn project_without_master_is_a_configuration_error() {
    let mut store = Store::new();
    store.add_release(Release { id: 11, project_id: 1, version: "1.0".to_string() });
    store.add_release(Release { id: 20, project_id: 2, version: "master".to_string() });
    let before = store.clone();
    let mut authors = authors();
    let result = ingest(&mut store, &mut authors, &project(), fetched());
    assert_eq!(result, Err(IngestError::Configuration { project_id: 1 }));
    assert_eq!(store, before);
    assert!(authors.cache.is_empty());
}

#[test]
fn project_without_master_fails_without_commits_too() {
    let mut store = Store::new();
    let mut authors = authors();
    let result = ingest(&mut store, &mut authors, &project(), vec![]);
    assert_eq!(result, Err(IngestError::Configuration { project_id: 1 }));
    assert_eq!(store, Store::new());
}

#[test]
fn empty_fetch_changes_nothing() {
    let mut store = seeded();
    let mut authors = authors();
    let result = ingest(&mut store, &mut authors, &project(), vec![]);
    assert_eq!(result, Ok(IngestionReport::new()));
    assert_eq!(store, seeded());
}

#[test]
fn used_up_author_ids_end_the_run_with_a_persistence_error() {
    let mut store = Store::new();
    store.add_release(Release { id: 10, project_id: 1, version: "master".to_string() });
    assert!(store.add_author(Author {
        id: i32::MAX - 1,
        name: "Late".to_string(),
        email: "late@x.com".to_string(),
    }));
    let mut authors = authors();
    let commits = vec![
        FetchedCommit::new("a1", "Al Ex", "al@x.com"),
        FetchedCommit::new("b2", "Bo", "bo@x.com"),
        FetchedCommit::new("c3", "Al", "al@x.com"),
    ];
    let result = ingest(&mut store, &mut authors, &project(), commits);
    assert_eq!(
        result,
        Err(IngestError::Persistence { project_id: 1, sha: Some("b2".to_string()) })
    );
    assert_eq!(
        store.commits,
        vec![Commit { sha: "a1".to_string(), author_id: i32::MAX, release_id: 10 }]
    );
    assert_eq!(store.authors.len(), 2);
}

#[test]
fn existing_author_is_reused_by_ingestion() {
    let mut store = seeded();
    let mut authors = authors();
    let commits = vec![FetchedCommit::new("e5", "Early", "early@x.com")];
    assert!(ingest(&mut store, &mut authors, &project(), commits).is_ok());
    assert_eq!(store.authors.len(), 1);
    assert_eq!(store.commits[1], Commit { sha: "e5".to_string(), author_id: 1, release_id: 10 });
}
