use moka::builder::CacheBuilder;
use moka::duration::Duration;

#[test]
fn build_cache() {
    // Cache<char, &str>
    let mut cache = CacheBuilder::new(100).build();

    assert_eq!(cache.max_capacity(), Some(100));
    assert_eq!(cache.time_to_live(), None);
    assert_eq!(cache.time_to_idle(), None);
    assert_eq!(cache.num_segments(), 1);

    cache.insert('a', "Alice");
    assert_eq!(cache.get(&'a'), Some("Alice"));

    let mut cache = CacheBuilder::new(100)
        .time_to_live(Duration::from_secs(45 * 60))
        .time_to_idle(Duration::from_secs(15 * 60))
        .build();

    assert_eq!(cache.max_capacity(), Some(100));
    assert_eq!(cache.time_to_live(), Some(Duration::from_secs(45 * 60)));
    assert_eq!(cache.time_to_idle(), Some(Duration::from_secs(15 * 60)));
    assert_eq!(cache.num_segments(), 1);

    cache.insert('a', "Alice");
    assert_eq!(cache.get(&'a'), Some("Alice"));
}

#[test]
fn build_segmented_cache() {
    // SegmentedCache<char, &str>
    let mut cache = CacheBuilder::new(100).segments(16).build();

    assert_eq!(cache.max_capacity(), Some(100));
    assert_eq!(cache.time_to_live(), None);
    assert_eq!(cache.time_to_idle(), None);
    assert_eq!(cache.num_segments(), 16_usize.next_power_of_two());

    cache.insert('b', "Bob");
    assert_eq!(cache.get(&'b'), Some("Bob"));

    let mut cache = CacheBuilder::new(100)
        .segments(16)
        .time_to_live(Duration::from_secs(45 * 60))
        .time_to_idle(Duration::from_secs(15 * 60))
        .build();

    assert_eq!(cache.max_capacity(), Some(100));
    assert_eq!(cache.time_to_live(), Some(Duration::from_secs(45 * 60)));
    assert_eq!(cache.time_to_idle(), Some(Duration::from_secs(15 * 60)));
    assert_eq!(cache.num_segments(), 16_usize.next_power_of_two());

    cache.insert('b', "Bob");
    assert_eq!(cache.get(&'b'), Some("Bob"));
}

#[test]
fn build_fully_configured_segmented_cache() {
    let mut cache = CacheBuilder::new(100)
        .time_to_live(Duration::from_secs(45 * 60))
        .time_to_idle(Duration::from_secs(15 * 60))
        .segments(16)
        .build();

    assert_eq!(cache.max_capacity(), Some(100));
    assert_eq!(cache.time_to_live(), Some(Duration::from_secs(45 * 60)));
    assert_eq!(cache.time_to_idle(), Some(Duration::from_secs(15 * 60)));
    assert_eq!(cache.num_segments(), 16);

    cache.insert(String::from("key"), String::from("value"));
    assert_eq!(cache.get(&String::from("key")), Some(String::from("value")));
    assert_eq!(cache.get(&String::from("other")), None);
}

#[test]
fn insert_replaces_existing_value() {
    let mut cache = CacheBuilder::new(10).build();

    cache.insert(1u64, "one");
    cache.insert(2u64, "two");
    cache.insert(1u64, "uno");

    assert_eq!(cache.get(&1u64), Some("uno"));
    assert_eq!(cache.get(&2u64), Some("two"));
    assert_eq!(cache.get(&3u64), None);
}

#[test]
fn builder_options_accumulate() {
    let cache: moka::cache::Cache<char, String, _> = CacheBuilder::new(7)
        .max_capacity(42)
        .initial_capacity(5)
        .support_invalidation_closures()
        .build();

    assert_eq!(cache.max_capacity(), Some(42));
    assert_eq!(cache.time_to_live(), None);
    assert_eq!(cache.time_to_idle(), None);
}
