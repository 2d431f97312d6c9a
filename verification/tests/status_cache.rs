use anchor::projects::ProjectStatus;
use anchor::status_cache::StatusCache;
use anchor::ttl_cache::TtlCache;

fn sample(slug: &str) -> ProjectStatus {
    ProjectStatus {
        slug: slug.into(),
        name: slug.into(),
        member_count: 0,
        members: vec![],
        on_disk: false,
        tmux_window_exists: false,
        last_synced: None,
        last_sync: None,
    }
}

#[test]
fn hit_miss_and_invalidate() {
    let mut cache: StatusCache = TtlCache::with_ttl(60_000);
    assert!(cache.get().is_none());
    cache.set(vec![sample("a")]);
    let hit = cache.get().expect("fresh");
    assert_eq!(hit.len(), 1);
    assert_eq!(hit[0].slug, "a");
    cache.invalidate();
    assert!(cache.get().is_none());
}

#[test]
fn expired_is_miss() {
    let mut cache: StatusCache = TtlCache::with_ttl(20);
    cache.set(vec![sample("x")]);
    let start = std::time::Instant::now();
    while start.elapsed() < std::time::Duration::from_millis(40) {
        std::hint::spin_loop();
    }
    assert!(cache.get().is_none());
}

#[test]
fn freshness_by_age() {
    let mut cache: StatusCache = StatusCache::new();
    assert!(cache.value_if_fresh(0).is_none());
    cache.set(vec![sample("a")]);
    assert!(cache.value_if_fresh(14_999).is_some());
    assert!(cache.value_if_fresh(15_000).is_none());
}
