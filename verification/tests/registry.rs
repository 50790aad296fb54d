use link_registry::links::{delete, get, get_all, insert, removed, Link, Registry, StorageError};

fn link(id: &str, href: &str) -> Link {
    Link::new(id.to_string(), href.to_string())
}

fn pairs(links: &[Link]) -> Vec<(String, String)> {
    let mut pairs: Vec<(String, String)> =
        links.iter().map(|link| (link.id().to_string(), link.href.clone())).collect();
    pairs.sort();
    pairs
}

#[test]
fn new_link_holds_both_fields() {
    let made = link("promo", "https://example.com/sale");
    assert_eq!(made.id(), "promo");
    assert_eq!(made.href, "https://example.com/sale");
}

#[test]
fn link_comes_apart_into_id_and_href() {
    let (id, href) = link("promo", "https://example.com/sale").into_parts();
    assert_eq!(id, "promo");
    assert_eq!(href, "https://example.com/sale");
}

#[test]
fn cloned_link_is_equal_and_independent() {
    let first = link("a", "x");
    let mut copy = first.clone();
    assert_eq!(copy.id(), "a");
    assert_eq!(copy.href, "x");
    copy.href = String::from("y");
    assert_eq!(first.href, "x");
}

#[test]
fn new_registry_is_empty() {
    let registry = Registry::new();
    assert!(get_all(&registry).is_empty());
    assert!(get(&registry, String::from("a")).is_none());
}

#[test]
fn insert_returns_the_stored_record() {
    let mut registry = Registry::new();
    let stored = insert(&mut registry, link("a", "x"));
    assert_eq!(stored.id(), "a");
    assert_eq!(stored.href, "x");
}

#[test]
fn second_upsert_overwrites_the_first() {
    let mut registry = Registry::new();
    insert(&mut registry, link("a", "h1"));
    let stored = insert(&mut registry, link("a", "h2"));
    assert_eq!(stored.href, "h2");
    let found = get(&registry, String::from("a")).expect("the record is held");
    assert_eq!(found.id(), "a");
    assert_eq!(found.href, "h2");
    let all = get_all(&registry);
    assert_eq!(all.iter().filter(|link| link.id() == "a").count(), 1);
    assert_eq!(pairs(&all), vec![(String::from("a"), String::from("h2"))]);
}

#[test]
fn overwrite_keeps_the_other_records() {
    let mut registry = Registry::new();
    insert(&mut registry, link("a", "1"));
    insert(&mut registry, link("b", "2"));
    insert(&mut registry, link("c", "3"));
    insert(&mut registry, link("b", "4"));
    assert_eq!(
        pairs(&get_all(&registry)),
        vec![
            (String::from("a"), String::from("1")),
            (String::from("b"), String::from("4")),
            (String::from("c"), String::from("3")),
        ]
    );
}

#[test]
fn delete_then_get_is_absent() {
    let mut registry = Registry::new();
    insert(&mut registry, link("a", "x"));
    assert!(delete(&mut registry, String::from("a")));
    assert!(get(&registry, String::from("a")).is_none());
    assert!(get_all(&registry).is_empty());
}

#[test]
fn delete_nonexistent_returns_false() {
    let mut registry = Registry::new();
    assert!(!delete(&mut registry, String::from("never-created")));
    insert(&mut registry, link("a", "x"));
    assert!(!delete(&mut registry, String::from("never-created")));
    assert_eq!(pairs(&get_all(&registry)), vec![(String::from("a"), String::from("x"))]);
}

#[test]
fn delete_twice_removes_once() {
    let mut registry = Registry::new();
    insert(&mut registry, link("a", "x"));
    assert!(delete(&mut registry, String::from("a")));
    assert!(!delete(&mut registry, String::from("a")));
}

#[test]
fn delete_leaves_the_other_records() {
    let mut registry = Registry::new();
    insert(&mut registry, link("a", "1"));
    insert(&mut registry, link("b", "2"));
    insert(&mut registry, link("c", "3"));
    assert!(delete(&mut registry, String::from("b")));
    assert_eq!(
        pairs(&get_all(&registry)),
        vec![(String::from("a"), String::from("1")), (String::from("c"), String::from("3"))]
    );
    assert_eq!(get(&registry, String::from("a")).expect("held").href, "1");
    assert_eq!(get(&registry, String::from("c")).expect("held").href, "3");
}

#[test]
fn deleted_identifier_can_be_written_again() {
    let mut registry = Registry::new();
    insert(&mut registry, link("a", "x"));
    delete(&mut registry, String::from("a"));
    insert(&mut registry, link("a", "y"));
    assert_eq!(get(&registry, String::from("a")).expect("held").href, "y");
    assert_eq!(get_all(&registry).len(), 1);
}

#[test]
fn round_trip_gives_back_id_and_href() {
    let cases = [
        ("promo", "https://example.com/sale"),
        ("", ""),
        ("a b", "not a url at all"),
        ("caf\u{e9}", "https://example.com/\u{1f600}?q=\u{4e2d}\u{6587}"),
        ("debug", "/debug"),
    ];
    let mut registry = Registry::new();
    for (id, href) in cases {
        insert(&mut registry, link(id, href));
        let found = get(&registry, id.to_string()).expect("the record is held");
        assert_eq!(found.id(), id);
        assert_eq!(found.href, href);
    }
    for (id, href) in cases {
        let found = get(&registry, id.to_string()).expect("the record is still held");
        assert_eq!(found.id(), id);
        assert_eq!(found.href, href);
    }
}

#[test]
fn get_tells_identifiers_apart_by_every_character() {
    let mut registry = Registry::new();
    insert(&mut registry, link("abc", "1"));
    assert!(get(&registry, String::from("ab")).is_none());
    assert!(get(&registry, String::from("abcd")).is_none());
    assert!(get(&registry, String::from("ABC")).is_none());
    assert!(get(&registry, String::from("abc")).is_some());
}

#[test]
fn get_hands_out_a_copy() {
    let mut registry = Registry::new();
    insert(&mut registry, link("a", "x"));
    let mut found = get(&registry, String::from("a")).expect("held");
    found.href = String::from("changed");
    assert_eq!(get(&registry, String::from("a")).expect("held").href, "x");
}

#[test]
fn listing_is_complete() {
    let mut registry = Registry::new();
    let mut expected = Vec::new();
    for n in 0..50 {
        let id = format!("id-{n}");
        let href = format!("https://example.com/{n}");
        insert(&mut registry, link(&id, &href));
        expected.push((id, href));
    }
    expected.sort();
    let all = get_all(&registry);
    assert_eq!(all.len(), 50);
    assert_eq!(pairs(&all), expected);
}

#[test]
fn listing_counts_an_identifier_once_however_often_written() {
    let mut registry = Registry::new();
    for n in 0..10 {
        insert(&mut registry, link("same", &format!("{n}")));
    }
    assert_eq!(pairs(&get_all(&registry)), vec![(String::from("same"), String::from("9"))]);
}

#[test]
fn removed_is_true_from_one_row_on() {
    assert!(!removed(0));
    assert!(removed(1));
    assert!(removed(2));
    assert!(removed(u64::MAX));
}

#[test]
fn storage_error_keeps_its_message() {
    let error = StorageError::new(String::from("disk I/O error"));
    assert_eq!(error.message, "disk I/O error");
}
