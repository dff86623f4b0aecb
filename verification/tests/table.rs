use shortener::service::register_chared;
use shortener::service::register_worded;
use shortener::service::resolve;
use shortener::service::short_url;
use shortener::store::RedirectStore;

#[test]
fn register_then_resolve_returns_the_target() {
    let mut store = RedirectStore::new();
    let target = "https://example.com/page".to_string();
    let id = register_chared(&mut store, &target, 4, 16).expect("empty table accepts a fresh identifier");
    assert_eq!(id.chars().count(), 4);
    assert_eq!(resolve(&store, &id), Some(target.clone()));
    if id != "zzzz" {
        assert_eq!(resolve(&store, &"zzzz".to_string()), None);
    }
}

#[test]
fn resolve_on_fresh_store_is_not_found() {
    let store = RedirectStore::new();
    assert_eq!(resolve(&store, &"abcd".to_string()), None);
}

#[test]
fn insert_if_absent_rejects_a_taken_identifier() {
    let mut store = RedirectStore::new();
    assert!(store.insert_if_absent("ab".to_string(), "first".to_string()));
    assert!(!store.insert_if_absent("ab".to_string(), "second".to_string()));
    // The conflicting attempt left the table untouched: one record, the
    // first target.
    assert_eq!(resolve(&store, &"ab".to_string()), Some("first".to_string()));
}

#[test]
fn delete_then_resolve_is_not_found() {
    let mut store = RedirectStore::new();
    assert!(store.insert_if_absent("ab".to_string(), "t".to_string()));
    store.delete(&"ab".to_string());
    assert_eq!(resolve(&store, &"ab".to_string()), None);
}

#[test]
fn delete_of_a_never_registered_identifier_does_not_fail() {
    let mut store = RedirectStore::new();
    assert!(store.insert_if_absent("ab".to_string(), "t".to_string()));
    store.delete(&"cd".to_string());
    // The table is exactly as it was.
    assert_eq!(resolve(&store, &"ab".to_string()), Some("t".to_string()));
}

#[test]
fn deleted_identifier_may_be_registered_again() {
    let mut store = RedirectStore::new();
    assert!(store.insert_if_absent("ab".to_string(), "t".to_string()));
    store.delete(&"ab".to_string());
    assert!(store.insert_if_absent("ab".to_string(), "u".to_string()));
    assert_eq!(resolve(&store, &"ab".to_string()), Some("u".to_string()));
}

#[test]
fn worded_registration_resolves_to_its_target() {
    let mut store = RedirectStore::new();
    let words = vec!["red".to_string(), "blue".to_string(), "green".to_string()];
    let target = "https://example.com/".to_string();
    let id = register_worded(&mut store, &target, &words, 2, 16).expect("empty table accepts a fresh identifier");
    assert_eq!(resolve(&store, &id), Some(target));
}

#[test]
fn registration_fails_once_the_space_is_exhausted() {
    let mut store = RedirectStore::new();
    let words = vec!["red".to_string()];
    let first = register_worded(&mut store, &"a".to_string(), &words, 1, 8);
    assert_eq!(first, Some("Red".to_string()));
    // The single possible identifier is taken: every retry collides and
    // the budget runs out.
    assert_eq!(register_worded(&mut store, &"b".to_string(), &words, 1, 8), None);
    assert_eq!(resolve(&store, &"Red".to_string()), Some("a".to_string()));
}

#[test]
fn registration_with_no_attempts_fails() {
    let mut store = RedirectStore::new();
    assert_eq!(register_chared(&mut store, &"t".to_string(), 4, 0), None);
    assert_eq!(resolve(&store, &"t".to_string()), None);
}

#[test]
fn short_url_concatenates_base_and_identifier() {
    let url = short_url(&"http://127.0.0.1:8000/".to_string(), &"aB3x".to_string());
    assert_eq!(url, "http://127.0.0.1:8000/aB3x");
}
