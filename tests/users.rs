use locate918::{
    CreateEvent, CreateUser, CreateUserInteraction, CreateUserPreference, Store, StoreError,
    RECENT_LIMIT,
};

fn new_user(email: &str) -> CreateUser {
    CreateUser { email: email.to_string(), name: Some("Sam".to_string()), location_preference: None }
}

fn pref(category: &str, weight: i32) -> CreateUserPreference {
    CreateUserPreference { category: category.to_string(), weight }
}

fn touch(event_id: u128, kind: &str) -> CreateUserInteraction {
    CreateUserInteraction { event_id, interaction_type: kind.to_string() }
}

fn event(title: &str, category: Option<&str>) -> CreateEvent {
    CreateEvent {
        title: title.to_string(),
        description: None,
        location: None,
        venue: None,
        source_url: "https://example.com".to_string(),
        start_time: 1,
        end_time: None,
        category: category.map(|c| c.to_string()),
    }
}

#[test]
fn created_user_is_found() {
    let mut store = Store::new();
    let u = store.create_user(new_user("a@example.com")).unwrap();
    assert_eq!(u.email, "a@example.com");
    assert_eq!(u.name.as_deref(), Some("Sam"));
    assert_eq!(store.get_user(u.id), Ok(u));
}

#[test]
fn missing_user_is_not_found() {
    let store = Store::new();
    assert_eq!(store.get_user(5), Err(StoreError::NotFound));
}

#[test]
fn duplicate_email_is_a_conflict() {
    let mut store = Store::new();
    store.create_user(new_user("a@example.com")).unwrap();
    assert_eq!(store.create_user(new_user("a@example.com")), Err(StoreError::Conflict));
    assert!(store.create_user(new_user("A@example.com")).is_ok());
}

#[test]
fn empty_email_is_invalid() {
    let mut store = Store::new();
    assert_eq!(store.create_user(new_user("")), Err(StoreError::InvalidInput));
}

#[test]
fn used_user_id_is_a_conflict() {
    let mut store = Store::new();
    store.insert_user(new_user("a@example.com"), 7, 1).unwrap();
    assert_eq!(store.insert_user(new_user("b@example.com"), 7, 2), Err(StoreError::Conflict));
}

#[test]
fn upsert_twice_with_same_weight_leaves_one_row() {
    let mut store = Store::new();
    let first = store.add_preference(9, pref("music", 5)).unwrap();
    let second = store.add_preference(9, pref("music", 5)).unwrap();
    let rows = store.get_preferences(9);
    assert_eq!(rows.len(), 1);
    assert_eq!(rows[0].weight, 5);
    assert_eq!(rows[0].category, "music");
    assert_eq!(second.id, first.id);
}

#[test]
fn upsert_overwrites_weight_and_keeps_identity() {
    let mut store = Store::new();
    let first = store.upsert_preference(9, pref("music", 5), 100, 1_000).unwrap();
    let second = store.upsert_preference(9, pref("music", -3), 200, 2_000).unwrap();
    let rows = store.get_preferences(9);
    assert_eq!(rows.len(), 1);
    assert_eq!(rows[0].weight, -3);
    assert_eq!(second.id, 100);
    assert_eq!(second.created_at, 1_000);
    assert_eq!(first.weight, 5);
    assert_eq!(rows[0], second);
}

#[test]
fn preferences_are_per_user_and_category() {
    let mut store = Store::new();
    store.upsert_preference(1, pref("music", 5), 10, 1).unwrap();
    store.upsert_preference(2, pref("music", 2), 11, 2).unwrap();
    store.upsert_preference(1, pref("sports", -4), 12, 3).unwrap();
    let mine = store.get_preferences(1);
    assert_eq!(mine.len(), 2);
    assert_eq!(mine[0].category, "music");
    assert_eq!(mine[1].category, "sports");
    assert_eq!(store.get_preferences(2).len(), 1);
    assert!(store.get_preferences(3).is_empty());
}

#[test]
fn interactions_are_listed_newest_first() {
    let mut store = Store::new();
    store.record_interaction(1, touch(50, "view"), 1, 300).unwrap();
    store.record_interaction(1, touch(51, "save"), 2, 100).unwrap();
    store.record_interaction(2, touch(52, "view"), 3, 250).unwrap();
    store.record_interaction(1, touch(53, "attend"), 4, 200).unwrap();
    let listed = store.get_interactions(1);
    let times: Vec<i64> = listed.iter().map(|x| x.created_at).collect();
    assert_eq!(times, vec![300, 200, 100]);
    assert!(listed.iter().all(|x| x.user_id == 1));
}

#[test]
fn interactions_from_the_clock_are_newest_first() {
    let mut store = Store::new();
    for k in 0..5u128 {
        let added = store.add_interaction(3, touch(k, "view")).unwrap();
        assert_eq!(store.get_interactions(3)[0], added);
    }
    let listed = store.get_interactions(3);
    assert_eq!(listed.len(), 5);
    for w in listed.windows(2) {
        assert!(w[0].created_at > w[1].created_at);
    }
}

#[test]
fn added_interaction_is_later_than_a_clock_ahead_of_it() {
    let mut store = Store::new();
    // an interaction far in the future: the clock reads earlier than it
    store.record_interaction(1, touch(50, "view"), 1, i64::MAX - 10).unwrap();
    let added = store.add_interaction(1, touch(51, "save")).unwrap();
    assert_eq!(added.created_at, i64::MAX - 9);
    let ids: Vec<u128> = store.get_interactions(1).iter().map(|x| x.id).collect();
    assert_eq!(ids, vec![added.id, 1]);
}

#[test]
fn add_interaction_at_picks_the_next_time() {
    let mut store = Store::new();
    let a = store.add_interaction_at(1, touch(50, "view"), 1, 100).unwrap();
    assert_eq!(a.created_at, 100);
    let b = store.add_interaction_at(1, touch(50, "view"), 2, 100).unwrap();
    assert_eq!(b.created_at, 101);
    let c = store.add_interaction_at(2, touch(50, "view"), 3, 50).unwrap();
    assert_eq!(c.created_at, 102);
    let d = store.add_interaction_at(1, touch(50, "view"), 4, 500).unwrap();
    assert_eq!(d.created_at, 500);
    let times: Vec<i64> = store.get_interactions(1).iter().map(|x| x.created_at).collect();
    assert_eq!(times, vec![500, 101, 100]);
    assert_eq!(store.next_interaction_time(7), Some(501));
    assert_eq!(store.next_interaction_time(900), Some(900));
}

#[test]
fn no_time_after_the_latest_instant() {
    let mut store = Store::new();
    store.record_interaction(1, touch(50, "view"), 1, i64::MAX).unwrap();
    assert_eq!(store.next_interaction_time(0), None);
    assert_eq!(store.add_interaction(1, touch(51, "save")), Err(StoreError::TimeExhausted));
    assert_eq!(store.add_interaction_at(1, touch(51, "save"), 2, 0), Err(StoreError::TimeExhausted));
    assert_eq!(store.get_interactions(1).len(), 1);
}

#[test]
fn interactions_at_the_same_instant_come_last_recorded_first() {
    let mut store = Store::new();
    store.record_interaction(1, touch(50, "view"), 1, 100).unwrap();
    store.record_interaction(1, touch(51, "save"), 2, 100).unwrap();
    let ids: Vec<u128> = store.get_interactions(1).iter().map(|x| x.id).collect();
    assert_eq!(ids, vec![2, 1]);
}

#[test]
fn profile_of_missing_user_is_not_found_even_with_rows() {
    let mut store = Store::new();
    store.upsert_preference(8, pref("music", 5), 1, 1).unwrap();
    store.record_interaction(8, touch(1, "view"), 2, 2).unwrap();
    assert_eq!(store.get_user_profile(8), Err(StoreError::NotFound));
}

#[test]
fn profile_of_user_without_rows_is_found() {
    let mut store = Store::new();
    let u = store.insert_user(new_user("a@example.com"), 8, 1).unwrap();
    let profile = store.get_user_profile(8).unwrap();
    assert_eq!(profile.user, u);
    assert!(profile.preferences.is_empty());
    assert!(profile.recent_interactions.is_empty());
}

#[test]
fn profile_joins_recent_interactions_with_events() {
    let mut store = Store::new();
    store.insert_user(new_user("a@example.com"), 8, 1).unwrap();
    store.insert_event(event("Jazz Night", Some("music")), 100, 1).unwrap();
    store.upsert_preference(8, pref("music", 5), 1, 1).unwrap();
    store.record_interaction(8, touch(100, "view"), 1, 10).unwrap();
    store.record_interaction(8, touch(999, "save"), 2, 20).unwrap();
    store.record_interaction(8, touch(100, "attend"), 3, 30).unwrap();
    let profile = store.get_user_profile(8).unwrap();
    assert_eq!(profile.preferences.len(), 1);
    let recent = &profile.recent_interactions;
    assert_eq!(recent.len(), 2);
    assert_eq!(recent[0].interaction_type, "attend");
    assert_eq!(recent[0].event_title, "Jazz Night");
    assert_eq!(recent[0].event_category.as_deref(), Some("music"));
    assert_eq!(recent[0].created_at, 30);
    assert_eq!(recent[1].interaction_type, "view");
}

#[test]
fn profile_holds_at_most_the_recent_limit() {
    let mut store = Store::new();
    store.insert_user(new_user("a@example.com"), 8, 1).unwrap();
    store.insert_event(event("Food Fest", None), 100, 1).unwrap();
    for k in 0..25i64 {
        store.record_interaction(8, touch(100, "view"), k as u128 + 10, k).unwrap();
    }
    let recent = store.get_user_profile(8).unwrap().recent_interactions;
    assert_eq!(RECENT_LIMIT, 20);
    assert_eq!(recent.len(), 20);
    assert_eq!(recent[0].created_at, 24);
    assert_eq!(recent[19].created_at, 5);
}

#[test]
fn error_names() {
    assert_eq!(StoreError::NotFound.as_str(), "not_found");
    assert_eq!(StoreError::Conflict.as_str(), "conflict");
    assert_eq!(StoreError::InvalidInput.as_str(), "invalid_input");
    assert_eq!(StoreError::TimeExhausted.as_str(), "time_exhausted");
}

#[test]
fn used_interaction_id_is_a_conflict() {
    let mut store = Store::new();
    store.record_interaction(1, touch(50, "view"), 7, 100).unwrap();
    assert_eq!(store.record_interaction(2, touch(51, "save"), 7, 200), Err(StoreError::Conflict));
    assert_eq!(store.add_interaction_at(2, touch(51, "save"), 7, 300), Err(StoreError::Conflict));
    assert!(store.get_interactions(2).is_empty());
    assert_eq!(store.get_interactions(1).len(), 1);
}

#[test]
fn used_preference_id_is_a_conflict_only_for_a_new_row() {
    let mut store = Store::new();
    store.upsert_preference(1, pref("music", 5), 7, 1).unwrap();
    assert_eq!(store.upsert_preference(2, pref("music", 3), 7, 2), Err(StoreError::Conflict));
    assert!(store.get_preferences(2).is_empty());
    let updated = store.upsert_preference(1, pref("music", -1), 7, 3).unwrap();
    assert_eq!(updated.weight, -1);
    assert_eq!(updated.id, 7);
}

#[test]
fn first_creations_succeed() {
    let mut store = Store::new();
    assert!(store.create_user(new_user("a@example.com")).is_ok());
    assert!(store.create_event(event("Jazz Night", None)).is_ok());
    assert!(store.add_preference(1, pref("music", 5)).is_ok());
    assert!(store.add_interaction(1, touch(1, "view")).is_ok());
}
