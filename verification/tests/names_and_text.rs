use catalog_gate::names::SecurableName;
use catalog_gate::securable::SecurableType;
use catalog_gate::text::{
    chars_of, contains_text, decimal, is_listed, same_text, split_text, trim_text,
};

#[test]
fn one_segment_gives_one_scope() {
    let name = SecurableName::parse("main");
    assert_eq!(name.catalog, "main");
    assert_eq!(name.schema, None);
    assert_eq!(name.table, None);
    assert_eq!(name.levels(), 1);
}

#[test]
fn two_segments_give_two_scopes() {
    let name = SecurableName::parse("main.sales");
    assert_eq!(name.catalog, "main");
    assert_eq!(name.schema.as_deref(), Some("main.sales"));
    assert_eq!(name.table, None);
    assert_eq!(name.levels(), 2);
}

#[test]
fn three_segments_give_three_scopes() {
    let name = SecurableName::parse("main.sales.orders");
    assert_eq!(name.catalog, "main");
    assert_eq!(name.schema.as_deref(), Some("main.sales"));
    assert_eq!(name.table.as_deref(), Some("main.sales.orders"));
    assert_eq!(name.levels(), 3);
}

#[test]
fn scopes_count_follows_segment_count() {
    for (full_name, segments) in [("a", 1usize), ("a.b", 2), ("a.b.c", 3)] {
        let name = SecurableName::parse(full_name);
        assert_eq!(name.levels(), segments);
        assert!(!name.catalog.is_empty());
        assert_eq!(name.schema.is_some(), segments >= 2);
        assert_eq!(name.table.is_some(), segments >= 3);
    }
}

#[test]
fn segments_after_the_third_stay_in_the_table_name() {
    let name = SecurableName::parse("a.b.c.d");
    assert_eq!(name.catalog, "a");
    assert_eq!(name.schema.as_deref(), Some("a.b"));
    assert_eq!(name.table.as_deref(), Some("a.b.c.d"));
    assert_eq!(name.levels(), 3);
}

#[test]
fn catalog_scope_loses_surrounding_quotes_only() {
    let name = SecurableName::parse("\"\"my\"cat\".s");
    assert_eq!(name.catalog, "my\"cat");
    assert_eq!(name.schema.as_deref(), Some("\"\"my\"cat\".s"));
}

#[test]
fn first_segment_of_quotes_leaves_an_empty_catalog_scope() {
    assert_eq!(SecurableName::parse("").catalog, "");
    assert_eq!(SecurableName::parse("\"\".s").catalog, "");
    assert_eq!(SecurableName::parse(".s").schema.as_deref(), Some(".s"));
}

#[test]
fn split_keeps_empty_pieces() {
    assert_eq!(split_text("a..b.", '.'), vec!["a", "", "b", ""]);
    assert_eq!(split_text("", '.'), vec![""]);
    assert_eq!(split_text("abc", '.'), vec!["abc"]);
    assert_eq!(split_text("é.ü", '.'), vec!["é", "ü"]);
}

#[test]
fn trim_removes_runs_at_both_ends() {
    assert_eq!(trim_text("\"\"a\"b\"", '"'), "a\"b");
    assert_eq!(trim_text("\"\"\"", '"'), "");
    assert_eq!(trim_text("plain", '"'), "plain");
    assert_eq!(trim_text("", '"'), "");
}

#[test]
fn contains_finds_runs_anywhere() {
    assert!(contains_text("rac_demo_catalog", "demo"));
    assert!(contains_text("rac_demo_catalog", "rac"));
    assert!(contains_text("rac_demo_catalog", "log"));
    assert!(contains_text("abc", ""));
    assert!(contains_text("", ""));
    assert!(!contains_text("abc", "abcd"));
    assert!(!contains_text("rac_demo_catalog", "Demo"));
    assert!(!contains_text("aab", "aba"));
}

#[test]
fn decimal_writes_numbers_without_padding() {
    assert_eq!(decimal(0), "0");
    assert_eq!(decimal(7), "7");
    assert_eq!(decimal(10), "10");
    assert_eq!(decimal(4096), "4096");
    assert_eq!(decimal(usize::MAX), usize::MAX.to_string());
}

#[test]
fn text_helpers_agree_with_std() {
    assert_eq!(chars_of("héllo"), "héllo".chars().collect::<Vec<char>>());
    assert!(same_text("abc", "abc"));
    assert!(!same_text("abc", "abd"));
    assert!(!same_text("abc", "ab"));
    let list = vec![String::from("x"), String::from("y")];
    assert!(is_listed(&String::from("y"), &list));
    assert!(!is_listed(&String::from("z"), &list));
}

#[test]
fn every_kind_survives_the_round_trip() {
    let kinds = [
        (SecurableType::Catalog, "catalog"),
        (SecurableType::Schema, "schema"),
        (SecurableType::Table, "table"),
        (SecurableType::StorageCredential, "storage_credential"),
        (SecurableType::ExternalLocation, "external_location"),
        (SecurableType::Function, "function"),
        (SecurableType::Share, "share"),
        (SecurableType::Provider, "provider"),
        (SecurableType::Recipient, "recipient"),
        (SecurableType::Metastore, "metastore"),
        (SecurableType::Volume, "volume"),
        (SecurableType::Connection, "connection"),
    ];
    for (kind, wire) in kinds {
        assert_eq!(kind.to_string(), wire);
        assert_eq!(kind.as_str(), wire);
        assert_eq!(SecurableType::from_str(wire), Ok(kind));
    }
}

#[test]
fn unknown_kinds_are_refused() {
    assert_eq!(SecurableType::from_str("Catalog"), Err(()));
    assert_eq!(SecurableType::from_str("tables"), Err(()));
    assert_eq!(SecurableType::from_str(""), Err(()));
    assert_eq!(SecurableType::from_str("view"), Err(()));
}
