use url_crawler::data_store::{DataStore, DataStoreEntry, Store};

#[test]
fn data_store_adds_key_and_value_correctly() {
    let mut s = Store::new();
    let key = "key".to_owned();
    let val = "val".to_owned();

    s.add(key.clone(), Some(val.clone()));

    assert!(s.exists_key(&key.clone()));
    assert_eq!(
        s.get(&key),
        Some(&DataStoreEntry {
            visited: false,
            urls_found: vec![val]
        })
    );
}

#[test]
fn data_store_updates_value_correctly() {
    let mut s = Store::new();
    let key = "key".to_owned();
    let val = "val".to_owned();
    let val2 = "val2".to_owned();

    s.add(key.clone(), Some(val.clone()));
    s.add(key.clone(), Some(val2.clone()));

    assert!(s.exists_key(&key.clone()));
    assert_eq!(
        s.get(&key),
        Some(&DataStoreEntry {
            visited: false,
            urls_found: vec![val, val2]
        })
    );
}

#[test]
fn data_store_adds_key_without_value_correctly() {
    let mut s = Store::new();
    let key = "key".to_owned();

    s.add(key.clone(), None);

    assert!(s.exists_key(&key.clone()));
    assert_eq!(
        s.get(&key),
        Some(&DataStoreEntry {
            visited: false,
            urls_found: vec![]
        })
    );
}

#[test]
fn data_store_set_has_visited_state_to_false_if_not_visited() {
    let mut s = Store::new();
    let key = "key".to_owned();
    let val = Some("val".to_owned());

    s.add(key.clone(), val.clone());

    assert!(!s.has_visited(&key.clone()));
}

#[test]
fn data_store_set_has_visited_state_to_true_if_visited() {
    let mut s = Store::new();
    let key = "key".to_owned();
    let val = Some("val".to_owned());

    s.add(key.clone(), val.clone());
    s.visited(&key);

    assert!(s.has_visited(&key.clone()));
}

#[test]
fn data_store_absent_key_degrades_to_defined_results() {
    let mut s = Store::new();

    assert!(!s.exists_key("missing"));
    assert!(!s.has_visited("missing"));
    assert_eq!(s.get("missing"), None);

    // Marking an absent key visited is a no-op that creates no record.
    s.visited("missing");
    assert!(!s.exists_key("missing"));
    assert_eq!(s.get("missing"), None);
}

#[test]
fn data_store_visited_stays_set_under_discoveries() {
    let mut s = Store::new();
    let key = "key".to_owned();

    s.add(key.clone(), None);
    s.visited(&key);
    s.add(key.clone(), Some("found".to_owned()));
    s.visited("other");

    assert!(s.has_visited(&key));
}
