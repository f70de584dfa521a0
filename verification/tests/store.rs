use splits::models::SplitData;
use splits::store::{RecordsStore, StoreError};

fn data(
    user: &str,
    is_down: bool,
    is_elevator: bool,
    duration_ms: i32,
    is_encumbered: Option<bool>,
) -> SplitData {
    SplitData {
        user: user.to_string(),
        is_down,
        is_elevator,
        duration_ms,
        is_encumbered,
    }
}

fn down_stairs(user: &str, duration_ms: i32) -> SplitData {
    data(user, true, false, duration_ms, Some(false))
}

#[test]
fn insert_assigns_sequential_ids_and_returns_the_split() {
    let mut store = RecordsStore::new();
    let first = store.insert_split(&down_stairs("alice", 5000), 100).unwrap();
    let second = store.insert_split(&down_stairs("bob", 3000), 200).unwrap();
    assert_eq!(first.id, 1);
    assert_eq!(second.id, 2);
    assert_eq!(first.user, "alice");
    assert_eq!(first.duration_ms, 5000);
    assert_eq!(first.created_at, 100);
    assert_eq!(second.created_at, 200);
    assert!(first.is_down);
    assert!(!first.is_elevator);
    assert_eq!(first.is_encumbered, Some(false));
}

#[test]
fn timestamps_never_decrease() {
    let mut store = RecordsStore::new();
    let first = store.insert_split(&down_stairs("alice", 5000), 200).unwrap();
    let second = store.insert_split(&down_stairs("bob", 3000), 100).unwrap();
    assert_eq!(first.created_at, 200);
    assert_eq!(second.created_at, 200);
}

#[test]
fn immediate_duplicate_submission_is_rejected() {
    let mut store = RecordsStore::new();
    assert!(store.insert_split(&down_stairs("A", 1000), 100).is_ok());
    let r = store.insert_split(&down_stairs("A", 1000), 200);
    assert!(matches!(r, Err(StoreError::DuplicateEntry)));
}

#[test]
fn different_duration_from_the_same_user_succeeds() {
    let mut store = RecordsStore::new();
    assert!(store.insert_split(&down_stairs("A", 1000), 100).is_ok());
    assert!(store.insert_split(&down_stairs("A", 1001), 200).is_ok());
}

#[test]
fn same_duration_from_another_user_succeeds() {
    let mut store = RecordsStore::new();
    assert!(store.insert_split(&down_stairs("A", 1000), 100).is_ok());
    assert!(store.insert_split(&down_stairs("B", 1000), 200).is_ok());
}

#[test]
fn duplicate_check_ignores_category_and_other_users() {
    let mut store = RecordsStore::new();
    assert!(store
        .insert_split(&data("A", true, false, 1000, Some(false)), 100)
        .is_ok());
    assert!(store.insert_split(&down_stairs("B", 500), 200).is_ok());
    // A's most recent entry still has 1000ms, whatever B did in between,
    // and the duration alone decides, not the category.
    let r = store.insert_split(&data("A", false, true, 1000, None), 300);
    assert!(matches!(r, Err(StoreError::DuplicateEntry)));
}

#[test]
fn a_rejected_duplicate_leaves_the_store_unchanged() {
    let mut store = RecordsStore::new();
    store.insert_split(&down_stairs("A", 1000), 100).unwrap();
    let _ = store.insert_split(&down_stairs("A", 1000), 200);
    assert_eq!(store.get_all_splits().len(), 1);
}

#[test]
fn most_recent_split_is_the_last_inserted() {
    let mut store = RecordsStore::new();
    assert!(store.get_most_recent_split().is_none());
    store.insert_split(&down_stairs("alice", 5000), 100).unwrap();
    store.insert_split(&down_stairs("bob", 3000), 200).unwrap();
    let latest = store.get_most_recent_split().unwrap();
    assert_eq!(latest.user, "bob");
    assert_eq!(latest.id, 2);
}

#[test]
fn all_splits_come_newest_first() {
    let mut store = RecordsStore::new();
    store.insert_split(&down_stairs("alice", 5000), 100).unwrap();
    store.insert_split(&down_stairs("bob", 3000), 200).unwrap();
    store.insert_split(&down_stairs("carol", 4000), 300).unwrap();
    let all = store.get_all_splits();
    assert_eq!(all.len(), 3);
    assert_eq!(all[0].user, "carol");
    assert_eq!(all[1].user, "bob");
    assert_eq!(all[2].user, "alice");
}

#[test]
fn faster_split_takes_the_record() {
    let mut store = RecordsStore::new();
    let a = store.insert_split(&down_stairs("A", 5000), 100).unwrap();
    assert!(store.is_world_record(&a));
    let b = store.insert_split(&down_stairs("B", 3000), 200).unwrap();
    assert!(store.is_world_record(&b));
    assert!(!store.is_world_record(&a));
    let best = store.get_world_records();
    assert_eq!(best.len(), 1);
    assert_eq!(best[0].user, "B");
    assert_eq!(best[0].duration_ms, 3000);
}

#[test]
fn a_tied_duration_still_counts_as_a_record() {
    let mut store = RecordsStore::new();
    let a = store.insert_split(&down_stairs("A", 3000), 100).unwrap();
    let b = store.insert_split(&down_stairs("B", 3000), 200).unwrap();
    assert!(store.is_world_record(&a));
    assert!(store.is_world_record(&b));
}

#[test]
fn records_are_scoped_to_their_category() {
    let mut store = RecordsStore::new();
    let slow_elevator = store
        .insert_split(&data("A", true, true, 9000, None), 100)
        .unwrap();
    store.insert_split(&down_stairs("B", 100), 200).unwrap();
    // The fast stairs split is in another category and takes nothing away.
    assert!(store.is_world_record(&slow_elevator));
}

#[test]
fn encumbrance_splits_categories_on_stairs() {
    let mut store = RecordsStore::new();
    let encumbered = store
        .insert_split(&data("A", true, false, 9000, Some(true)), 100)
        .unwrap();
    store
        .insert_split(&data("B", true, false, 100, Some(false)), 200)
        .unwrap();
    assert!(store.is_world_record(&encumbered));
}

#[test]
fn best_board_breaks_ties_by_earliest_creation() {
    let mut store = RecordsStore::new();
    store.insert_split(&down_stairs("first", 3000), 100).unwrap();
    store.insert_split(&down_stairs("second", 3000), 200).unwrap();
    let best = store.get_world_records();
    assert_eq!(best.len(), 1);
    assert_eq!(best[0].user, "first");
}

#[test]
fn worst_board_breaks_ties_by_earliest_creation() {
    let mut store = RecordsStore::new();
    store.insert_split(&down_stairs("first", 3000), 100).unwrap();
    store.insert_split(&down_stairs("second", 3000), 200).unwrap();
    let worst = store.get_slowest_records();
    assert_eq!(worst.len(), 1);
    assert_eq!(worst[0].user, "first");
}

#[test]
fn boards_cover_each_category_once_in_display_order() {
    let mut store = RecordsStore::new();
    // Two entries in each of the six categories, inserted in a scrambled
    // order and with distinct durations.
    store.insert_split(&data("u1", false, false, 800, Some(false)), 1).unwrap();
    store.insert_split(&data("u2", true, true, 100, None), 2).unwrap();
    store.insert_split(&data("u3", true, false, 300, Some(false)), 3).unwrap();
    store.insert_split(&data("u4", false, true, 200, None), 4).unwrap();
    store.insert_split(&data("u5", true, false, 250, Some(true)), 5).unwrap();
    store.insert_split(&data("u6", false, false, 700, Some(true)), 6).unwrap();
    store.insert_split(&data("v1", false, false, 900, Some(false)), 7).unwrap();
    store.insert_split(&data("v2", true, true, 150, None), 8).unwrap();
    store.insert_split(&data("v3", true, false, 350, Some(false)), 9).unwrap();
    store.insert_split(&data("v4", false, true, 220, None), 10).unwrap();
    store.insert_split(&data("v5", true, false, 260, Some(true)), 11).unwrap();
    store.insert_split(&data("v6", false, false, 710, Some(true)), 12).unwrap();

    let best = store.get_world_records();
    let worst = store.get_slowest_records();
    assert_eq!(best.len(), 6);
    assert_eq!(worst.len(), 6);

    // Display order: down-elevator, up-elevator, down-stairs-encumbered,
    // down-stairs-unencumbered, up-stairs-encumbered, up-stairs-unencumbered.
    let best_users: Vec<&str> = best.iter().map(|s| s.user.as_str()).collect();
    assert_eq!(best_users, vec!["u2", "u4", "u5", "u3", "u6", "u1"]);
    let worst_users: Vec<&str> = worst.iter().map(|s| s.user.as_str()).collect();
    assert_eq!(worst_users, vec!["v2", "v4", "v5", "v3", "v6", "v1"]);

    // No two board entries share a category.
    for i in 0..best.len() {
        for j in (i + 1)..best.len() {
            let same = best[i].is_down == best[j].is_down
                && best[i].is_elevator == best[j].is_elevator
                && (best[i].is_elevator || best[i].is_encumbered == best[j].is_encumbered);
            assert!(!same);
        }
    }
}

#[test]
fn empty_categories_are_omitted_from_boards() {
    let mut store = RecordsStore::new();
    store.insert_split(&data("A", true, true, 100, None), 1).unwrap();
    let best = store.get_world_records();
    assert_eq!(best.len(), 1);
    assert!(best[0].is_down);
    assert!(best[0].is_elevator);
}

#[test]
fn stairs_without_encumbrance_stay_off_the_boards() {
    let mut store = RecordsStore::new();
    store.insert_split(&data("A", true, false, 100, None), 1).unwrap();
    assert_eq!(store.get_world_records().len(), 0);
    assert_eq!(store.get_slowest_records().len(), 0);
}

#[test]
fn best_board_includes_the_newcomer_after_an_overtake() {
    // Insert user "A" down-stairs-unencumbered at 5000ms, then user "B"
    // at 3000ms: the best board shows B, B holds the record, A no longer
    // does.
    let mut store = RecordsStore::new();
    let a = store.insert_split(&down_stairs("A", 5000), 100).unwrap();
    let b = store.insert_split(&down_stairs("B", 3000), 200).unwrap();
    let best = store.get_world_records();
    assert!(best
        .iter()
        .any(|s| s.user == "B" && s.is_down && !s.is_elevator && s.is_encumbered == Some(false)));
    assert!(store.is_world_record(&b));
    assert!(!store.is_world_record(&a));
}

#[test]
fn resubmitting_the_same_duration_immediately_fails() {
    // Insert user "A" at 1000ms, then immediately insert user "A" at
    // 1000ms again: the second call fails as a duplicate.
    let mut store = RecordsStore::new();
    assert!(store.insert_split(&down_stairs("A", 1000), 100).is_ok());
    let second = store.insert_split(&down_stairs("A", 1000), 101);
    assert!(matches!(second, Err(StoreError::DuplicateEntry)));
}
