use commit_ingest::alias::AliasResolver;
use commit_ingest::authors::AuthorStore;
use commit_ingest::model::{Author, Identity};
use commit_ingest::store::Store;

fn run() -> AuthorStore {
    AuthorStore::new(AliasResolver::new("Al <al@x.com> Al Ex <al@x.com>\n"))
}

#[test]
fn new_author_store_remembers_nothing() {
    let authors = run();
    assert!(authors.cache.is_empty());
    assert_eq!(authors.cached(&Identity::new("Al", "al@x.com")), None);
    assert_eq!(authors.canonical("Al Ex", "al@x.com"), Identity::new("Al", "al@x.com"));
}

#[test]
fn later_remembered_id_overrides_earlier() {
    let mut authors = run();
    authors.remember(Identity::new("Al", "al@x.com"), 4);
    authors.remember(Identity::new("Bo", "bo@x.com"), 5);
    assert_eq!(authors.cached(&Identity::new("Al", "al@x.com")), Some(4));
    authors.remember(Identity::new("Al", "al@x.com"), 9);
    assert_eq!(authors.cached(&Identity::new("Al", "al@x.com")), Some(9));
    assert_eq!(authors.cached(&Identity::new("Bo", "bo@x.com")), Some(5));
    assert_eq!(authors.cached(&Identity::new("Bo", "al@x.com")), None);
}

#[test]
fn unknown_identity_is_created_once() {
    let mut store = Store::new();
    let mut authors = run();
    assert_eq!(authors.get_or_create(&mut store, "Al Ex", "al@x.com"), Some(1));
    assert_eq!(
        store.authors,
        vec![Author { id: 1, name: "Al".to_string(), email: "al@x.com".to_string() }]
    );
    assert_eq!(authors.get_or_create(&mut store, "Al Ex", "al@x.com"), Some(1));
    assert_eq!(authors.get_or_create(&mut store, "Al", "al@x.com"), Some(1));
    assert_eq!(store.authors.len(), 1);
    assert_eq!(authors.cache.len(), 1);
}

#[test]
fn spellings_of_one_identity_get_one_id() {
    let mut store = Store::new();
    let mut authors = run();
    assert_eq!(authors.get_or_create(&mut store, "Bo", "bo@x.com"), Some(1));
    let plain = authors.get_or_create(&mut store, "Al", "al@x.com");
    let alias = authors.get_or_create(&mut store, "Al Ex", "al@x.com");
    assert_eq!(plain, Some(2));
    assert_eq!(alias, plain);
    assert_eq!(store.authors.len(), 2);
}

#[test]
fn recorded_author_is_found_not_created() {
    let mut store = Store::new();
    assert!(store.add_author(Author { id: 7, name: "Al".to_string(), email: "al@x.com".to_string() }));
    let before = store.clone();
    let mut authors = run();
    assert_eq!(authors.get_or_create(&mut store, "Al Ex", "al@x.com"), Some(7));
    assert_eq!(store, before);
    assert_eq!(authors.cached(&Identity::new("Al", "al@x.com")), Some(7));
}

#[test]
fn remembered_id_is_given_without_reading_the_store() {
    let mut store = Store::new();
    let mut authors = run();
    authors.remember(Identity::new("Al", "al@x.com"), 42);
    assert_eq!(authors.get_or_create(&mut store, "Al Ex", "al@x.com"), Some(42));
    assert!(store.authors.is_empty());
}

#[test]
fn later_run_gets_the_same_id() {
    let mut store = Store::new();
    let mut first_run = run();
    let first = first_run.get_or_create(&mut store, "Al Ex", "al@x.com");
    let mut second_run = run();
    let second = second_run.get_or_create(&mut store, "Al", "al@x.com");
    assert_eq!(first, Some(1));
    assert_eq!(second, first);
    assert_eq!(store.authors.len(), 1);
}

#[test]
fn nothing_is_given_when_ids_are_used_up() {
    let mut store = Store::new();
    assert!(store.add_author(Author { id: i32::MAX, name: "L".to_string(), email: "l@x.com".to_string() }));
    let before = store.clone();
    let mut authors = run();
    assert_eq!(authors.get_or_create(&mut store, "Al", "al@x.com"), None);
    assert_eq!(store, before);
    assert!(authors.cache.is_empty());
    assert_eq!(authors.get_or_create(&mut store, "L", "l@x.com"), Some(i32::MAX));
}
