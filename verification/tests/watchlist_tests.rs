use twitchalerts::watchlist::{has_unique_identifiers, WatchEntry, WatchListStore};

fn entry(name: &str, enabled: bool, last: i64) -> WatchEntry {
    WatchEntry {
        identifier: name.to_string(),
        alerts_enabled: enabled,
        last_live_started_at: last,
    }
}

#[test]
fn unique_identifier_check() {
    let unique = vec![entry("alice", true, 0), entry("bob", true, 0)];
    assert!(has_unique_identifiers(&unique));

    let duplicated = vec![entry("alice", true, 0), entry("bob", true, 0), entry("alice", false, 5)];
    assert!(!has_unique_identifiers(&duplicated));

    let empty: Vec<WatchEntry> = vec![];
    assert!(has_unique_identifiers(&empty));
}

#[test]
fn list_alertable_filters_disabled_entities() {
    let store = WatchListStore::new(vec![
        entry("alice", true, 10),
        entry("bob", false, 20),
        entry("carol", true, 30),
    ]);
    let listed = store.list_alertable();
    assert_eq!(listed.len(), 2);
    assert_eq!(listed[0].identifier, "alice");
    assert_eq!(listed[0].last_live_started_at, 10);
    assert_eq!(listed[1].identifier, "carol");
    assert_eq!(listed[1].last_live_started_at, 30);
    assert!(listed.iter().all(|e| e.alerts_enabled));
}

#[test]
fn update_then_refetch_round_trip() {
    let mut store = WatchListStore::new(vec![entry("alice", true, 10), entry("bob", true, 20)]);
    let ok = store.update_last_live_started_at(&"alice".to_string(), 777);
    assert!(ok);
    let listed = store.list_alertable();
    assert_eq!(listed[0].identifier, "alice");
    assert_eq!(listed[0].last_live_started_at, 777);
    // The other entry is untouched.
    assert_eq!(listed[1].identifier, "bob");
    assert_eq!(listed[1].last_live_started_at, 20);
}

#[test]
fn update_unknown_identifier_reports_failure() {
    let mut store = WatchListStore::new(vec![entry("alice", true, 10)]);
    let ok = store.update_last_live_started_at(&"mallory".to_string(), 5);
    assert!(!ok);
    let listed = store.list_alertable();
    assert_eq!(listed[0].last_live_started_at, 10);
}

#[test]
fn store_len_counts_all_entries() {
    let store = WatchListStore::new(vec![entry("alice", true, 0), entry("bob", false, 0)]);
    assert_eq!(store.len(), 2);
}
