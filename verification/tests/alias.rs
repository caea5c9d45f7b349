use commit_ingest::alias::{AliasResolver, AliasRule};
use commit_ingest::model::Identity;

fn rule(name: &str, email: &str, raw_name: Option<&str>, raw_email: &str) -> AliasRule {
    AliasRule {
        canonical_name: name.to_string(),
        canonical_email: email.to_string(),
        raw_name: raw_name.map(|n| n.to_string()),
        raw_email: raw_email.to_string(),
    }
}

#[test]
fn empty_table_passes_every_identity_through() {
    let table = AliasResolver::empty();
    assert_eq!(table.len(), 0);
    assert_eq!(table.resolve("Al Ex", "al@x.com"), Identity::new("Al Ex", "al@x.com"));
    assert_eq!(table.resolve("", ""), Identity::new("", ""));
}

#[test]
fn pair_rule_maps_the_exact_pair() {
    let table = AliasResolver::from_rules(vec![rule("Al", "al@x.com", Some("Al Ex"), "al@x.com")]);
    assert_eq!(table.resolve("Al Ex", "al@x.com"), Identity::new("Al", "al@x.com"));
    assert_eq!(table.resolve("Al", "al@x.com"), Identity::new("Al", "al@x.com"));
}

#[test]
fn pair_rule_leaves_other_names_alone() {
    let table = AliasResolver::from_rules(vec![rule("Al", "al@x.com", Some("Al Ex"), "al@x.com")]);
    assert_eq!(table.resolve("Alex", "al@x.com"), Identity::new("Alex", "al@x.com"));
    assert_eq!(table.resolve("Al Ex", "other@x.com"), Identity::new("Al Ex", "other@x.com"));
    assert_eq!(table.resolve("al ex", "al@x.com"), Identity::new("al ex", "al@x.com"));
}

#[test]
fn email_rule_applies_whatever_the_name() {
    let table = AliasResolver::from_rules(vec![rule("Jane Doe", "jane@new.org", None, "jd@old.org")]);
    assert_eq!(table.resolve("J. Doe", "jd@old.org"), Identity::new("Jane Doe", "jane@new.org"));
    assert_eq!(table.resolve("", "jd@old.org"), Identity::new("Jane Doe", "jane@new.org"));
    assert_eq!(table.resolve("J. Doe", "JD@old.org"), Identity::new("J. Doe", "JD@old.org"));
}

#[test]
fn email_rule_wins_over_an_earlier_pair_rule() {
    let table = AliasResolver::from_rules(vec![
        rule("By Pair", "pair@x.com", Some("Raw"), "raw@x.com"),
        rule("By Email", "email@x.com", None, "raw@x.com"),
    ]);
    assert_eq!(table.resolve("Raw", "raw@x.com"), Identity::new("By Email", "email@x.com"));
    assert_eq!(table.find_pair_rule(&"Raw".to_string(), &"raw@x.com".to_string()), Some(0));
    assert_eq!(table.find_email_rule(&"raw@x.com".to_string()), Some(1));
}

#[test]
fn first_rule_of_a_class_wins() {
    let table = AliasResolver::from_rules(vec![
        rule("First", "first@x.com", None, "raw@x.com"),
        rule("Second", "second@x.com", None, "raw@x.com"),
        rule("Third", "third@x.com", Some("N"), "pair@x.com"),
        rule("Fourth", "fourth@x.com", Some("N"), "pair@x.com"),
    ]);
    assert_eq!(table.resolve("anyone", "raw@x.com"), Identity::new("First", "first@x.com"));
    assert_eq!(table.resolve("N", "pair@x.com"), Identity::new("Third", "third@x.com"));
    assert_eq!(table.find_email_rule(&"pair@x.com".to_string()), None);
    assert_eq!(table.find_pair_rule(&"M".to_string(), &"pair@x.com".to_string()), None);
}

#[test]
fn resolving_does_not_change_the_table() {
    let table = AliasResolver::from_rules(vec![rule("Al", "al@x.com", Some("Al Ex"), "al@x.com")]);
    let before = table.clone();
    let first = table.resolve("Al Ex", "al@x.com");
    let second = table.resolve("Al Ex", "al@x.com");
    assert_eq!(first, second);
    assert_eq!(table, before);
}

#[test]
fn identity_helpers_copy_and_compare() {
    let a = Identity::new("Al", "al@x.com");
    let b = a.duplicate();
    assert_eq!(a, b);
    assert!(a.same_as(&b));
    assert!(!a.same_as(&Identity::new("Al", "al@y.com")));
    assert!(!a.same_as(&Identity::new("Al Ex", "al@x.com")));
}
