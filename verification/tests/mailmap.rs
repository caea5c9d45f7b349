use commit_ingest::alias::{AliasResolver, AliasRule};
use commit_ingest::mailmap::{
    blank, chars_of, drop_blank, find_char, parse_line, parse_rules, skip_blank, trim,
};
use commit_ingest::model::Identity;

fn rule(name: &str, email: &str, raw_name: Option<&str>, raw_email: &str) -> AliasRule {
    AliasRule {
        canonical_name: name.to_string(),
        canonical_email: email.to_string(),
        raw_name: raw_name.map(|n| n.to_string()),
        raw_email: raw_email.to_string(),
    }
}

#[test]
fn empty_text_states_no_rule() {
    assert_eq!(parse_rules(""), Vec::<AliasRule>::new());
    let table = AliasResolver::new("");
    assert_eq!(table.len(), 0);
    assert_eq!(table.resolve("Al Ex", "al@x.com"), Identity::new("Al Ex", "al@x.com"));
}

#[test]
fn line_with_raw_name_states_a_pair_rule() {
    assert_eq!(
        parse_rules("Al <al@x.com> Al Ex <al@x.com>"),
        vec![rule("Al", "al@x.com", Some("Al Ex"), "al@x.com")]
    );
}

#[test]
fn line_without_raw_name_states_an_email_rule() {
    assert_eq!(
        parse_rules("Jane Doe <jane@new.org> <jd@old.org>\n"),
        vec![rule("Jane Doe", "jane@new.org", None, "jd@old.org")]
    );
}

#[test]
fn blanks_around_names_do_not_count() {
    assert_eq!(
        parse_rules("  \tJane  Doe\t <jane@new.org>   J. Doe   <jd@old.org> \t "),
        vec![rule("Jane  Doe", "jane@new.org", Some("J. Doe"), "jd@old.org")]
    );
}

#[test]
fn addresses_are_taken_as_written() {
    assert_eq!(
        parse_rules("A < a@x.com > <B@X.com>"),
        vec![rule("A", " a@x.com ", None, "B@X.com")]
    );
}

#[test]
fn comments_and_empty_lines_state_no_rule() {
    let text = "# the table\n\n   \n  # A <a@x.com> <b@x.com>\nA <a@x.com> <b@x.com>\n#\n";
    assert_eq!(parse_rules(text), vec![rule("A", "a@x.com", None, "b@x.com")]);
}

#[test]
fn lines_of_another_shape_state_no_rule() {
    assert_eq!(parse_rules("A <a@x.com>"), Vec::<AliasRule>::new());
    assert_eq!(parse_rules("<a@x.com> <b@x.com>"), Vec::<AliasRule>::new());
    assert_eq!(parse_rules("A <> <b@x.com>"), Vec::<AliasRule>::new());
    assert_eq!(parse_rules("A <a@x.com> <>"), Vec::<AliasRule>::new());
    assert_eq!(parse_rules("A <a@x.com> <b@x.com> rest"), Vec::<AliasRule>::new());
    assert_eq!(parse_rules("A <a@x.com> <b@x.com"), Vec::<AliasRule>::new());
    assert_eq!(parse_rules("A <a@x.com <b@x.com>"), Vec::<AliasRule>::new());
    assert_eq!(parse_rules("just a line"), Vec::<AliasRule>::new());
    assert_eq!(parse_rules("A > a@x.com < <b@x.com>"), Vec::<AliasRule>::new());
}

#[test]
fn rules_keep_the_order_of_their_lines() {
    let text = "A <a@x.com> <r1@x.com>\r\nnot a rule\r\nB <b@x.com> N <r2@x.com>\r\nC <c@x.com> <r3@x.com>";
    assert_eq!(
        parse_rules(text),
        vec![
            rule("A", "a@x.com", None, "r1@x.com"),
            rule("B", "b@x.com", Some("N"), "r2@x.com"),
            rule("C", "c@x.com", None, "r3@x.com"),
        ]
    );
}

#[test]
fn names_may_hold_any_character() {
    assert_eq!(
        parse_rules("Åsa Öberg <asa@x.se> Asa Oberg <asa@x.se>"),
        vec![rule("Åsa Öberg", "asa@x.se", Some("Asa Oberg"), "asa@x.se")]
    );
}

#[test]
fn table_read_from_text_resolves() {
    let table = AliasResolver::new("Al <al@x.com> Al Ex <al@x.com>\nJane <jane@new.org> <jd@old.org>\n");
    assert_eq!(table.len(), 2);
    assert_eq!(table.resolve("Al Ex", "al@x.com"), Identity::new("Al", "al@x.com"));
    assert_eq!(table.resolve("whoever", "jd@old.org"), Identity::new("Jane", "jane@new.org"));
    assert_eq!(table.resolve("Bo", "bo@x.com"), Identity::new("Bo", "bo@x.com"));
}

#[test]
fn scanning_helpers_give_exact_positions() {
    let text = "  ab <c> ";
    let chars = chars_of(text);
    assert_eq!(chars, vec![' ', ' ', 'a', 'b', ' ', '<', 'c', '>', ' ']);
    assert_eq!(find_char(&chars, '<', 0, 9), 5);
    assert_eq!(find_char(&chars, '<', 6, 9), 9);
    assert_eq!(find_char(&chars, '<', 0, 5), 5);
    assert_eq!(find_char(&chars, '>', 9, 9), 9);
    assert_eq!(find_char(&chars, '>', 7, 3), 3);
    assert_eq!(skip_blank(&chars, 0, 9), 2);
    assert_eq!(skip_blank(&chars, 8, 9), 9);
    assert_eq!(skip_blank(&chars, 0, 2), 2);
    assert_eq!(drop_blank(&chars, 0, 5), 4);
    assert_eq!(drop_blank(&chars, 0, 2), 0);
    assert_eq!(drop_blank(&chars, 2, 4), 4);
    assert_eq!(trim(text, &chars, 0, 5), "ab");
    assert_eq!(trim(text, &chars, 0, 2), "");
    assert_eq!(trim(text, &chars, 4, 9), "<c>");
    assert!(blank(' ') && blank('\t') && blank('\r'));
    assert!(!blank('\n') && !blank('a') && !blank('#'));
}

#[test]
fn one_line_is_read_within_its_bounds() {
    let text = "A <a@x.com> <b@x.com>\nB <b@x.com> <c@x.com>";
    let chars = chars_of(text);
    assert_eq!(parse_line(text, &chars, 0, 21), Some(rule("A", "a@x.com", None, "b@x.com")));
    assert_eq!(parse_line(text, &chars, 22, 43), Some(rule("B", "b@x.com", None, "c@x.com")));
    assert_eq!(parse_line(text, &chars, 0, 20), None);
    assert_eq!(parse_line(text, &chars, 5, 5), None);
}
