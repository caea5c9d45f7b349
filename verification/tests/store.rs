use commit_ingest::model::{Author, Commit, Identity, Release};
use commit_ingest::protocol::{StoreReply, StoreRequest};
use commit_ingest::store::{contains_id, Store};

fn release(id: i32, project_id: i32, version: &str) -> Release {
    Release { id, project_id, version: version.to_string() }
}

fn commit(sha: &str, author_id: i32, release_id: i32) -> Commit {
    Commit { sha: sha.to_string(), author_id, release_id }
}

fn seeded() -> Store {
    let mut store = Store::new();
    store.add_release(release(10, 1, "master"));
    store.add_release(release(11, 1, "1.0"));
    store.add_release(release(20, 2, "master"));
    store.add_release(release(12, 1, "master"));
    store.create_commit(commit("abc123", 1, 11));
    store.create_commit(commit("fff000", 1, 20));
    store
}

#[test]
fn new_store_is_empty() {
    let store = Store::new();
    assert!(store.authors.is_empty());
    assert!(store.releases.is_empty());
    assert!(store.commits.is_empty());
    assert_eq!(store.last_author_id, 0);
}

#[test]
fn release_is_found_by_project_and_label() {
    let store = seeded();
    assert_eq!(store.find_release(1, &"master".to_string()), Some(10));
    assert_eq!(store.find_release(1, &"1.0".to_string()), Some(11));
    assert_eq!(store.find_release(2, &"master".to_string()), Some(20));
    assert_eq!(store.find_release(2, &"1.0".to_string()), None);
    assert_eq!(store.find_release(3, &"master".to_string()), None);
    assert_eq!(store.find_release(1, &"Master".to_string()), None);
}

#[test]
fn release_ids_are_listed_in_table_order() {
    let store = seeded();
    assert_eq!(store.release_ids(1), vec![10, 11, 12]);
    assert_eq!(store.release_ids(2), vec![20]);
    assert_eq!(store.release_ids(3), Vec::<i32>::new());
}

#[test]
fn commit_is_found_only_within_the_releases_given() {
    let store = seeded();
    assert!(store.has_commit(&"abc123".to_string(), &vec![10, 11, 12]));
    assert!(store.has_commit(&"abc123".to_string(), &vec![11]));
    assert!(!store.has_commit(&"abc123".to_string(), &vec![10, 12]));
    assert!(!store.has_commit(&"abc123".to_string(), &vec![20]));
    assert!(!store.has_commit(&"abc123".to_string(), &vec![]));
    assert!(!store.has_commit(&"fff000".to_string(), &vec![10, 11, 12]));
    assert!(!store.has_commit(&"abc12".to_string(), &vec![10, 11, 12]));
}

#[test]
fn created_authors_get_rising_ids() {
    let mut store = Store::new();
    assert_eq!(store.create_author(&Identity::new("Al", "al@x.com")), Some(1));
    assert_eq!(store.create_author(&Identity::new("Bo", "bo@x.com")), Some(2));
    assert_eq!(store.last_author_id, 2);
    assert_eq!(
        store.authors,
        vec![
            Author { id: 1, name: "Al".to_string(), email: "al@x.com".to_string() },
            Author { id: 2, name: "Bo".to_string(), email: "bo@x.com".to_string() },
        ]
    );
    assert_eq!(store.find_author(&Identity::new("Bo", "bo@x.com")), Some(2));
    assert_eq!(store.find_author(&Identity::new("Bo", "al@x.com")), None);
    assert_eq!(store.find_author(&Identity::new("Al", "bo@x.com")), None);
}

#[test]
fn first_author_under_an_identity_is_found() {
    let mut store = Store::new();
    assert_eq!(store.create_author(&Identity::new("Al", "al@x.com")), Some(1));
    assert_eq!(store.create_author(&Identity::new("Al", "al@x.com")), Some(2));
    assert_eq!(store.find_author(&Identity::new("Al", "al@x.com")), Some(1));
}

#[test]
fn added_author_must_be_above_every_id_handed_out() {
    let mut store = Store::new();
    assert!(store.add_author(Author { id: 5, name: "Al".to_string(), email: "al@x.com".to_string() }));
    assert!(!store.add_author(Author { id: 5, name: "Bo".to_string(), email: "bo@x.com".to_string() }));
    assert!(!store.add_author(Author { id: 3, name: "Bo".to_string(), email: "bo@x.com".to_string() }));
    assert_eq!(store.authors.len(), 1);
    assert_eq!(store.last_author_id, 5);
    assert_eq!(store.create_author(&Identity::new("Bo", "bo@x.com")), Some(6));
}

#[test]
fn no_author_is_created_when_ids_are_used_up() {
    let mut store = Store::new();
    assert!(store.add_author(Author {
        id: i32::MAX,
        name: "Last".to_string(),
        email: "last@x.com".to_string(),
    }));
    let before = store.clone();
    assert_eq!(store.create_author(&Identity::new("Al", "al@x.com")), None);
    assert_eq!(store, before);
}

#[test]
fn store_answers_each_request_in_kind() {
    let mut store = seeded();
    assert_eq!(
        store.perform(&StoreRequest::FindRelease { project_id: 1, version: "master".to_string() }),
        StoreReply::Release(Some(10))
    );
    assert_eq!(
        store.perform(&StoreRequest::FindRelease { project_id: 9, version: "master".to_string() }),
        StoreReply::Release(None)
    );
    assert_eq!(
        store.perform(&StoreRequest::ListReleaseIds { project_id: 1 }),
        StoreReply::ReleaseIds(vec![10, 11, 12])
    );
    assert_eq!(
        store.perform(&StoreRequest::FindCommit {
            sha: "abc123".to_string(),
            release_ids: vec![10, 11, 12]
        }),
        StoreReply::Commit(true)
    );
    assert_eq!(
        store.perform(&StoreRequest::FindCommit { sha: "abc123".to_string(), release_ids: vec![20] }),
        StoreReply::Commit(false)
    );
    assert_eq!(
        store.perform(&StoreRequest::FindAuthor { identity: Identity::new("Al", "al@x.com") }),
        StoreReply::Author(None)
    );
    let reads = store.clone();
    assert_eq!(reads, seeded());
    assert_eq!(
        store.perform(&StoreRequest::CreateAuthor { identity: Identity::new("Al", "al@x.com") }),
        StoreReply::AuthorCreated(1)
    );
    assert_eq!(
        store.perform(&StoreRequest::FindAuthor { identity: Identity::new("Al", "al@x.com") }),
        StoreReply::Author(Some(1))
    );
    assert_eq!(
        store.perform(&StoreRequest::CreateCommit { commit: commit("def456", 1, 10) }),
        StoreReply::CommitCreated
    );
    assert_eq!(store.commits.len(), 3);
    assert_eq!(store.commits[2], commit("def456", 1, 10));
    assert_eq!(commit("def456", 1, 10).duplicate(), commit("def456", 1, 10));
}

#[test]
fn store_reports_failure_when_ids_are_used_up() {
    let mut store = Store::new();
    assert!(store.add_author(Author { id: i32::MAX, name: "L".to_string(), email: "l@x.com".to_string() }));
    assert_eq!(
        store.perform(&StoreRequest::CreateAuthor { identity: Identity::new("Al", "al@x.com") }),
        StoreReply::Failed
    );
    assert_eq!(store.authors.len(), 1);
}

#[test]
fn id_lists_are_searched() {
    assert!(contains_id(&vec![3, 1, 2], 2));
    assert!(!contains_id(&vec![3, 1, 2], 4));
    assert!(!contains_id(&vec![], 0));
}
