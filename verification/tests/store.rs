use contribution_store::storage::PersistentStorage;

#[test]
fn never_inserted_uid_has_not_contributed() {
    let store = PersistentStorage::new();
    assert!(!store.has_contributed("alice"));

    let mut store = PersistentStorage::new();
    store.insert_contributor_at("alice", 10);
    store.insert_contributor_at("bob", 20);
    assert!(!store.has_contributed("carol"));
}

#[test]
fn inserted_uid_has_contributed_whatever_came_after() {
    let mut store = PersistentStorage::new();
    store.insert_contributor_at("alice", 10);
    assert!(store.has_contributed("alice"));

    store.finish_contribution_at("alice", 30);
    assert!(store.has_contributed("alice"));

    store.expire_contribution_at("alice", 40);
    assert!(store.has_contributed("alice"));
}

#[test]
fn insert_then_finish_sets_only_finished_at() {
    let mut store = PersistentStorage::new();
    store.insert_contributor_at("alice", 10);
    store.finish_contribution_at("alice", 30);

    let record = store.find_record("alice").expect("alice has a row");
    assert_eq!(record.uid, "alice");
    assert_eq!(record.started_at, 10);
    assert_eq!(record.finished_at, Some(30));
    assert_eq!(record.expired_at, None);
}

#[test]
fn insert_then_expire_sets_only_expired_at() {
    let mut store = PersistentStorage::new();
    store.insert_contributor_at("alice", 10);
    store.expire_contribution_at("alice", 25);

    let record = store.find_record("alice").expect("alice has a row");
    assert_eq!(record.uid, "alice");
    assert_eq!(record.started_at, 10);
    assert_eq!(record.expired_at, Some(25));
    assert_eq!(record.finished_at, None);
}

#[test]
fn finish_or_expire_without_row_changes_nothing() {
    let mut store = PersistentStorage::new();
    store.insert_contributor_at("bob", 10);

    store.finish_contribution_at("alice", 30);
    store.expire_contribution_at("alice", 40);

    assert_eq!(store.rows.len(), 1);
    assert!(!store.has_contributed("alice"));
    let bob = store.find_record("bob").expect("bob has a row");
    assert_eq!(bob.finished_at, None);
    assert_eq!(bob.expired_at, None);
}

#[test]
fn scenario_alice_expire_then_finish_sets_both() {
    let mut store = PersistentStorage::new();
    store.insert_contributor_at("alice", 10);
    assert!(store.has_contributed("alice"));

    store.expire_contribution_at("alice", 20);
    let record = store.find_record("alice").expect("alice has a row");
    assert_eq!(record.expired_at, Some(20));
    assert_eq!(record.finished_at, None);

    store.finish_contribution_at("alice", 30);
    let record = store.find_record("alice").expect("alice has a row");
    assert_eq!(record.expired_at, Some(20));
    assert_eq!(record.finished_at, Some(30));
}

#[test]
fn repeated_insert_adds_a_duplicate_row() {
    let mut store = PersistentStorage::new();
    store.insert_contributor_at("alice", 10);
    store.insert_contributor_at("alice", 15);
    assert_eq!(store.rows.len(), 2);
    assert!(store.has_contributed("alice"));

    let first = store.find_record("alice").expect("alice has a row");
    assert_eq!(first.started_at, 10);
}

#[test]
fn finish_stamps_every_row_of_the_uid() {
    let mut store = PersistentStorage::new();
    store.insert_contributor_at("alice", 10);
    store.insert_contributor_at("bob", 12);
    store.insert_contributor_at("alice", 15);

    store.finish_contribution_at("alice", 30);

    assert_eq!(store.rows[0].finished_at, Some(30));
    assert_eq!(store.rows[1].finished_at, None);
    assert_eq!(store.rows[2].finished_at, Some(30));
}

#[test]
fn wall_clock_operations_touch_the_expected_rows() {
    let mut store = PersistentStorage::new();
    store.insert_contributor("alice");
    assert!(store.has_contributed("alice"));
    assert_eq!(store.rows.len(), 1);

    store.finish_contribution("alice");
    let record = store.find_record("alice").expect("alice has a row");
    assert!(record.finished_at.is_some());
    assert_eq!(record.expired_at, None);

    store.expire_contribution("alice");
    let record = store.find_record("alice").expect("alice has a row");
    assert!(record.expired_at.is_some());
}

#[test]
fn options_carry_the_database_url() {
    let options = contribution_store::storage::Options::new(String::from("sqlite::memory:"));
    assert_eq!(options.database_url, "sqlite::memory:");
}
