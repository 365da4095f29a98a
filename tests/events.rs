use locate918::{CreateEvent, Event, SearchQuery, Store, StoreError};

fn payload(title: &str, description: Option<&str>, category: Option<&str>, start: i64) -> CreateEvent {
    CreateEvent {
        title: title.to_string(),
        description: description.map(|d| d.to_string()),
        location: Some("Downtown Tulsa".to_string()),
        venue: None,
        source_url: "https://example.com/event".to_string(),
        start_time: start,
        end_time: None,
        category: category.map(|c| c.to_string()),
    }
}

fn titles(events: &[Event]) -> Vec<String> {
    events.iter().map(|e| e.title.clone()).collect()
}

fn sample_store() -> Store {
    let mut store = Store::new();
    store.insert_event(payload("Jazz Night", None, Some("music"), 300), 1, 10).unwrap();
    store.insert_event(payload("Food Fest", None, Some("food"), 100), 2, 11).unwrap();
    store.insert_event(payload("Jazz Brunch", None, Some("food"), 200), 3, 12).unwrap();
    store
}

fn query(q: Option<&str>, category: Option<&str>) -> SearchQuery {
    SearchQuery::new(q.map(|s| s.to_string()), category.map(|s| s.to_string()))
}

#[test]
fn created_event_is_found_with_same_fields() {
    let mut store = Store::new();
    let p = payload("OSU Basketball Game", Some("Cowboys vs Kansas"), Some("sports"), 1_000);
    let created = store.create_event(p.clone()).unwrap();
    assert_eq!(created.title, p.title);
    assert_eq!(created.description, p.description);
    assert_eq!(created.location, p.location);
    assert_eq!(created.source_url, p.source_url);
    assert_eq!(created.start_time, p.start_time);
    assert_eq!(created.category, p.category);
    let first = store.get_event(created.id).unwrap();
    let second = store.get_event(created.id).unwrap();
    assert_eq!(first, created);
    assert_eq!(second, created);
    store.create_event(payload("Later", None, None, 5)).unwrap();
    assert_eq!(store.get_event(created.id).unwrap(), created);
}

#[test]
fn created_ids_are_random_version_four_uuids() {
    let mut store = Store::new();
    let a = store.create_event(payload("A", None, None, 1)).unwrap();
    let b = store.create_event(payload("B", None, None, 1)).unwrap();
    assert_ne!(a.id, b.id);
    for id in [a.id, b.id] {
        assert_eq!((id >> 76) & 0xF, 4);
        assert_eq!((id >> 62) & 0x3, 2);
    }
    // 2020-01-01T00:00:00Z in microseconds
    assert!(a.created_at > 1_577_836_800_000_000);
}

#[test]
fn missing_event_is_not_found() {
    let store = sample_store();
    assert_eq!(store.get_event(99), Err(StoreError::NotFound));
    assert_eq!(Store::new().get_event(1), Err(StoreError::NotFound));
}

#[test]
fn listing_is_ascending_by_start_time() {
    let store = sample_store();
    let listed = store.list_events();
    assert_eq!(titles(&listed), vec!["Food Fest", "Jazz Brunch", "Jazz Night"]);
    for w in listed.windows(2) {
        assert!(w[0].start_time <= w[1].start_time);
    }
}

#[test]
fn earliest_new_event_is_listed_first() {
    let mut store = sample_store();
    store.insert_event(payload("Dawn Yoga", None, None, 50), 4, 13).unwrap();
    assert_eq!(store.list_events()[0].title, "Dawn Yoga");
}

#[test]
fn equal_start_times_keep_creation_order() {
    let mut store = Store::new();
    store.insert_event(payload("First", None, None, 7), 1, 1).unwrap();
    store.insert_event(payload("Second", None, None, 7), 2, 2).unwrap();
    store.insert_event(payload("Before", None, None, 6), 3, 3).unwrap();
    store.insert_event(payload("Third", None, None, 7), 4, 4).unwrap();
    assert_eq!(titles(&store.list_events()), vec!["Before", "First", "Second", "Third"]);
}

#[test]
fn search_by_text_only() {
    let store = sample_store();
    assert_eq!(titles(&store.search_events(&query(Some("jazz"), None))), vec!["Jazz Brunch", "Jazz Night"]);
}

#[test]
fn search_by_category_only() {
    let store = sample_store();
    assert_eq!(titles(&store.search_events(&query(None, Some("music")))), vec!["Jazz Night"]);
}

#[test]
fn search_by_text_and_category() {
    let store = sample_store();
    assert_eq!(titles(&store.search_events(&query(Some("jazz"), Some("food")))), vec!["Jazz Brunch"]);
}

#[test]
fn search_without_filters_lists_all_in_start_order() {
    let store = sample_store();
    assert_eq!(
        titles(&store.search_events(&query(None, None))),
        vec!["Food Fest", "Jazz Brunch", "Jazz Night"]
    );
}

#[test]
fn search_text_ignores_case() {
    let store = sample_store();
    let upper = store.search_events(&query(Some("JAZZ"), None));
    let lower = store.search_events(&query(Some("jazz"), None));
    assert_eq!(upper, lower);
    assert_eq!(upper.len(), 2);
}

#[test]
fn search_category_is_exact() {
    let store = sample_store();
    assert!(store.search_events(&query(None, Some("Music"))).is_empty());
    assert!(store.search_events(&query(None, Some("mus"))).is_empty());
}

#[test]
fn search_matches_description_and_skips_missing_one() {
    let mut store = Store::new();
    store.insert_event(payload("Evening out", Some("Live JAZZ downtown"), None, 1), 1, 1).unwrap();
    store.insert_event(payload("Quiet night", None, None, 2), 2, 2).unwrap();
    assert_eq!(titles(&store.search_events(&query(Some("jazz"), None))), vec!["Evening out"]);
}

#[test]
fn search_pattern_characters_are_literal() {
    let mut store = Store::new();
    store.insert_event(payload("100% fun", None, None, 1), 1, 1).unwrap();
    store.insert_event(payload("Plain fun", None, None, 2), 2, 2).unwrap();
    assert_eq!(titles(&store.search_events(&query(Some("%"), None))), vec!["100% fun"]);
    assert!(store.search_events(&query(Some("_"), None)).is_empty());
}

#[test]
fn empty_title_is_invalid() {
    let mut store = Store::new();
    assert_eq!(store.create_event(payload("", None, None, 1)), Err(StoreError::InvalidInput));
    assert!(store.list_events().is_empty());
}

#[test]
fn empty_source_url_is_invalid() {
    let mut store = Store::new();
    let mut p = payload("Title", None, None, 1);
    p.source_url = String::new();
    assert_eq!(store.insert_event(p, 1, 1), Err(StoreError::InvalidInput));
}

#[test]
fn end_before_start_is_invalid() {
    let mut store = Store::new();
    let mut p = payload("Title", None, None, 10);
    p.end_time = Some(9);
    assert_eq!(store.insert_event(p.clone(), 1, 1), Err(StoreError::InvalidInput));
    p.end_time = Some(10);
    assert!(store.insert_event(p, 1, 1).is_ok());
}

#[test]
fn used_event_id_is_a_conflict() {
    let mut store = sample_store();
    assert_eq!(store.insert_event(payload("Again", None, None, 1), 2, 1), Err(StoreError::Conflict));
    assert_eq!(store.list_events().len(), 3);
}

#[test]
fn insert_event_assigns_given_id_and_time() {
    let mut store = Store::new();
    let e = store.insert_event(payload("Title", None, Some("arts"), 5), 42, 77).unwrap();
    assert_eq!(e.id, 42);
    assert_eq!(e.created_at, 77);
    assert_eq!(store.get_event(42), Ok(e));
}
