use commit_ingest::remote::commits_url;

#[test]
fn commits_are_listed_under_the_repository() {
    assert_eq!(
        commits_url("rust-lang/rust"),
        Some("https://api.github.com/repos/rust-lang/rust/commits".to_string())
    );
}

#[test]
fn address_is_given_as_the_parser_writes_it() {
    assert_eq!(
        commits_url("some one/a repo"),
        Some("https://api.github.com/repos/some%20one/a%20repo/commits".to_string())
    );
    assert_eq!(
        commits_url("a/../b"),
        Some("https://api.github.com/repos/b/commits".to_string())
    );
}
