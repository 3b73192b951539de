use password_store::store_map::{lookup_pw, parse_store, StoreMap};
use password_store::StoreError;

#[test]
fn lookup_finds_each_record() {
    let store = "alice:s3cr3t bob:hunter2";
    assert_eq!(lookup_pw(store, "alice"), Ok(String::from("s3cr3t")));
    assert_eq!(lookup_pw(store, "bob"), Ok(String::from("hunter2")));
}

#[test]
fn lookup_of_an_absent_identifier_is_not_found() {
    assert_eq!(
        lookup_pw("alice:s3cr3t bob:hunter2", "carol"),
        Err(StoreError::NotFound)
    );
}

#[test]
fn token_without_colon_invalidates_the_store() {
    assert_eq!(lookup_pw("fooBAR", "fooBAR"), Err(StoreError::MalformedStore));
    assert_eq!(
        lookup_pw("alice:s3cr3t fooBAR bob:hunter2", "alice"),
        Err(StoreError::MalformedStore)
    );
    assert_eq!(
        lookup_pw("alice:s3cr3t bob:hunter2 fooBAR", "bob"),
        Err(StoreError::MalformedStore)
    );
    assert_eq!(
        lookup_pw("fooBAR alice:s3cr3t", "carol"),
        Err(StoreError::MalformedStore)
    );
}

#[test]
fn malformed_wins_over_not_found() {
    assert_eq!(lookup_pw("a:b c", "zzz"), Err(StoreError::MalformedStore));
}

#[test]
fn empty_store_holds_nothing() {
    assert_eq!(lookup_pw("", "alice"), Err(StoreError::NotFound));
    assert_eq!(lookup_pw("  \n\t ", "alice"), Err(StoreError::NotFound));
    assert_eq!(lookup_pw("", ""), Err(StoreError::NotFound));
}

#[test]
fn records_are_separated_by_any_whitespace() {
    let store = "\n alice:s3cr3t\t\tbob:hunter2\r\ncarol:x\u{a0}dave:y\u{3000}";
    assert_eq!(lookup_pw(store, "alice"), Ok(String::from("s3cr3t")));
    assert_eq!(lookup_pw(store, "bob"), Ok(String::from("hunter2")));
    assert_eq!(lookup_pw(store, "carol"), Ok(String::from("x")));
    assert_eq!(lookup_pw(store, "dave"), Ok(String::from("y")));
}

#[test]
fn record_is_split_at_its_first_colon() {
    let store = "alice:s3:cr3t bob::x :anon carol:";
    assert_eq!(lookup_pw(store, "alice"), Ok(String::from("s3:cr3t")));
    assert_eq!(lookup_pw(store, "bob"), Ok(String::from(":x")));
    assert_eq!(lookup_pw(store, ""), Ok(String::from("anon")));
    assert_eq!(lookup_pw(store, "carol"), Ok(String::new()));
    assert_eq!(lookup_pw(store, "s3"), Err(StoreError::NotFound));
}

#[test]
fn lone_colon_is_an_empty_record() {
    assert_eq!(lookup_pw(":", ""), Ok(String::new()));
    assert_eq!(lookup_pw(":", "a"), Err(StoreError::NotFound));
}

#[test]
fn later_record_replaces_an_earlier_one() {
    let store = "alice:old bob:hunter2 alice:new";
    assert_eq!(lookup_pw(store, "alice"), Ok(String::from("new")));
    assert_eq!(lookup_pw(store, "bob"), Ok(String::from("hunter2")));
}

#[test]
fn identifiers_are_compared_exactly() {
    let store = "alice:s3cr3t";
    assert_eq!(lookup_pw(store, "Alice"), Err(StoreError::NotFound));
    assert_eq!(lookup_pw(store, "alic"), Err(StoreError::NotFound));
    assert_eq!(lookup_pw(store, "alice "), Err(StoreError::NotFound));
    assert_eq!(lookup_pw(store, "alice:s3cr3t"), Err(StoreError::NotFound));
}

#[test]
fn multibyte_records_are_found() {
    let store = "k\u{e4}se:gr\u{fc}n \u{65e5}\u{672c}:\u{1f511}\u{1f511} z:1";
    assert_eq!(lookup_pw(store, "k\u{e4}se"), Ok(String::from("gr\u{fc}n")));
    assert_eq!(
        lookup_pw(store, "\u{65e5}\u{672c}"),
        Ok(String::from("\u{1f511}\u{1f511}"))
    );
    assert_eq!(lookup_pw(store, "z"), Ok(String::from("1")));
}

#[test]
fn parsed_store_answers_lookups() {
    let store = parse_store("alice:s3cr3t bob:hunter2 alice:again").ok().unwrap();
    assert_eq!(store.get("alice"), Some("again"));
    assert_eq!(store.get("bob"), Some("hunter2"));
    assert_eq!(store.get("carol"), None);
}

#[test]
fn parse_rejects_a_token_without_colon() {
    assert!(matches!(
        parse_store("alice:s3cr3t fooBAR"),
        Err(StoreError::MalformedStore)
    ));
    assert!(matches!(parse_store("x"), Err(StoreError::MalformedStore)));
    assert!(parse_store("").is_ok());
}

#[test]
fn store_map_keeps_the_last_insertion() {
    let mut store = StoreMap::new();
    assert_eq!(store.get("a"), None);
    store.insert(String::from("a"), String::from("1"));
    store.insert(String::from("b"), String::from("2"));
    assert_eq!(store.get("a"), Some("1"));
    assert_eq!(store.get("b"), Some("2"));
    store.insert(String::from("a"), String::from("3"));
    assert_eq!(store.get("a"), Some("3"));
    assert_eq!(store.get("b"), Some("2"));
    assert_eq!(store.get("c"), None);
}
