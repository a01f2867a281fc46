use jahbo::fetching::{FetchCache, STATS_LIFETIME};

#[test]
fn statistics_count_for_three_minutes() {
    assert_eq!(STATS_LIFETIME, 180);
}

#[test]
fn empty_store_answers_nothing() {
    let ids: FetchCache<String> = FetchCache::permanent();
    assert_eq!(ids.get("Alice", 0), None);
    let stats: FetchCache<String> = FetchCache::timed(STATS_LIFETIME);
    assert_eq!(stats.get("Alice", 0), None);
}

#[test]
fn permanent_store_never_forgets() {
    let mut ids: FetchCache<Result<String, String>> = FetchCache::permanent();
    ids.put("Alice".to_string(), 10, Ok("uuid-a".to_string()));
    ids.put("Nick".to_string(), 11, Err("Couldn't get uuid field".to_string()));
    assert_eq!(ids.get("Alice", 10), Some(&Ok("uuid-a".to_string())));
    assert_eq!(ids.get("Alice", u64::MAX), Some(&Ok("uuid-a".to_string())));
    assert_eq!(ids.get("Nick", 1_000_000), Some(&Err("Couldn't get uuid field".to_string())));
    assert_eq!(ids.get("alice", 10), None);
    assert_eq!(ids.get("Bob", 10), None);
}

#[test]
fn timed_store_forgets_after_its_lifetime() {
    let mut stats: FetchCache<i32> = FetchCache::timed(STATS_LIFETIME);
    stats.put("Alice".to_string(), 1000, 7);
    assert_eq!(stats.get("Alice", 1000), Some(&7));
    assert_eq!(stats.get("Alice", 1179), Some(&7));
    assert_eq!(stats.get("Alice", 1180), None);
    assert_eq!(stats.get("Alice", u64::MAX), None);
    assert_eq!(stats.get("Alice", 999), Some(&7));
    assert_eq!(stats.get("Alice", 0), Some(&7));
}

#[test]
fn store_with_no_lifetime_at_all_answers_nothing() {
    let mut stats: FetchCache<i32> = FetchCache::timed(0);
    stats.put("Alice".to_string(), 5, 1);
    assert_eq!(stats.get("Alice", 5), None);
    assert_eq!(stats.get("Alice", 4), Some(&1));
}

#[test]
fn storing_again_replaces_the_answer_and_its_time() {
    let mut stats: FetchCache<i32> = FetchCache::timed(180);
    stats.put("Alice".to_string(), 0, 1);
    stats.put("Bob".to_string(), 50, 2);
    assert_eq!(stats.get("Alice", 200), None);
    stats.put("Alice".to_string(), 200, 3);
    assert_eq!(stats.get("Alice", 200), Some(&3));
    assert_eq!(stats.get("Alice", 379), Some(&3));
    assert_eq!(stats.get("Alice", 380), None);
    assert_eq!(stats.get("Bob", 200), Some(&2));
    assert_eq!(stats.get("Bob", 230), None);
}
