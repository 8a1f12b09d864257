use river_db::cache;
use river_db::cache::{decide, entry_weight, CacheDecision};

#[test]
fn cache_key_builds_correctly() {
    // Basic key building
    assert_eq!(cache::cache_key("readings", &[]), "readings");
    assert_eq!(
        cache::cache_key("readings", &["station", "2025-01-01", "json"]),
        "readings:station:2025-01-01:json"
    );

    // Empty components preserved (ensures query uniqueness)
    assert_ne!(
        cache::cache_key("readings", &["station", "", "json"]),
        cache::cache_key("readings", &["station", "json"])
    );
}

#[test]
fn cache_key_keeps_trailing_empty_component() {
    assert_eq!(cache::cache_key("readings", &["s", ""]), "readings:s:");
    assert_ne!(cache::cache_key("readings", &["s", ""]), cache::cache_key("readings", &["s"]));
}

#[test]
fn absent_entry_is_a_miss() {
    assert_eq!(decide(false, None, Some(10), Some(5)), CacheDecision::Miss);
    assert_eq!(decide(false, Some(3), None, None), CacheDecision::Miss);
}

#[test]
fn unbounded_lookup_after_newer_reading_is_stale() {
    let t0 = 1_593_039_300i64;
    assert_eq!(decide(true, None, Some(t0 + 600), Some(t0)), CacheDecision::Stale);
}

#[test]
fn bounded_lookup_always_hits() {
    let t0 = 1_593_039_300i64;
    assert_eq!(decide(true, Some(t0), Some(t0 + 600), Some(t0)), CacheDecision::Hit);
}

#[test]
fn unbounded_lookup_without_new_data_hits() {
    let t0 = 1_593_039_300i64;
    assert_eq!(decide(true, None, Some(t0), Some(t0)), CacheDecision::Hit);
    assert_eq!(decide(true, None, None, Some(t0)), CacheDecision::Hit);
    assert_eq!(decide(true, None, Some(t0), None), CacheDecision::Hit);
}

#[test]
fn cache_freshness_scenario() {
    // populated at t0 with max_time t0; a reading at t0 + 600 arrives
    let t0 = 1_593_039_300i64;
    let first = decide(true, None, Some(t0 + 600), Some(t0));
    assert_eq!(first, CacheDecision::Stale);
    // recomputed entry now covers t0 + 600: the next lookup hits
    let second = decide(true, None, Some(t0 + 600), Some(t0 + 600));
    assert_eq!(second, CacheDecision::Hit);
}

#[test]
fn weight_is_length_saturated() {
    assert_eq!(entry_weight(0), 0);
    assert_eq!(entry_weight(1234), 1234);
    assert_eq!(entry_weight(u32::MAX as usize), u32::MAX);
    assert_eq!(entry_weight(u32::MAX as usize + 10), u32::MAX);
}
