use shuji::tool::cache::{cache_clear_all, cache_insert, cache_invalidate, cache_lookup, ReadCache};

fn parts(p: &str) -> Vec<String> {
    p.split('/').filter(|s| !s.is_empty()).map(|s| s.to_string()).collect()
}

#[test]
fn read_after_insert_is_a_hit_at_the_same_mtime() {
    let mut c = ReadCache::new();
    let dir = parts("/proj");
    cache_insert(&mut c, &dir, parts("/proj/src/a.rs"), 42, "content".to_string());
    assert_eq!(
        cache_lookup(&c, &dir, &parts("/proj/src/a.rs"), Some(42)).as_deref(),
        Some("content[缓存命中: 内容未变 (cached: true)]")
    );
    assert_eq!(cache_lookup(&c, &dir, &parts("/proj/src/a.rs"), Some(43)), None);
    assert_eq!(cache_lookup(&c, &dir, &parts("/proj/src/a.rs"), None), None);
}

#[test]
fn buckets_are_separate() {
    let mut c = ReadCache::new();
    cache_insert(&mut c, &parts("/one"), parts("/x/a"), 1, "A".to_string());
    assert_eq!(cache_lookup(&c, &parts("/two"), &parts("/x/a"), Some(1)), None);
}

#[test]
fn insert_replaces_an_earlier_binding() {
    let mut c = ReadCache::new();
    let dir = parts("/p");
    cache_insert(&mut c, &dir, parts("/p/a"), 1, "old".to_string());
    cache_insert(&mut c, &dir, parts("/p/a"), 2, "new".to_string());
    assert_eq!(cache_lookup(&c, &dir, &parts("/p/a"), Some(1)), None);
    assert!(cache_lookup(&c, &dir, &parts("/p/a"), Some(2)).unwrap().starts_with("new"));
}

#[test]
fn invalidate_drops_paths_under_a_directory_by_component() {
    let mut c = ReadCache::new();
    let dir = parts("/p");
    cache_insert(&mut c, &dir, parts("/p/src/a.rs"), 1, "a".to_string());
    cache_insert(&mut c, &dir, parts("/p/src2/b.rs"), 1, "b".to_string());
    cache_invalidate(&mut c, &dir, &parts("/p/src"));
    assert_eq!(cache_lookup(&c, &dir, &parts("/p/src/a.rs"), Some(1)), None);
    assert!(cache_lookup(&c, &dir, &parts("/p/src2/b.rs"), Some(1)).is_some());
}

#[test]
fn clear_all_empties_every_bucket() {
    let mut c = ReadCache::new();
    cache_insert(&mut c, &parts("/p"), parts("/p/a"), 1, "a".to_string());
    cache_insert(&mut c, &parts("/q"), parts("/q/b"), 1, "b".to_string());
    cache_clear_all(&mut c);
    assert_eq!(cache_lookup(&c, &parts("/p"), &parts("/p/a"), Some(1)), None);
    assert_eq!(cache_lookup(&c, &parts("/q"), &parts("/q/b"), Some(1)), None);
}
