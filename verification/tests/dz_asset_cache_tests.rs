//! The asset byte cache: least recently used entries leave first, one entry
//! per key, never more bytes than the limit.
use cardmaker::dz::asset_cache::{card_key, card_prefix, shared_key, AssetCache, FsAssetLoader};
use cardmaker::dz::ports::StaticCardId;

#[test]
fn test_cache_keys() {
    assert_eq!(shared_key("logo.png"), "shared:logo.png");
    assert_eq!(card_key("ZY01", "art.png"), "card:ZY01:art.png");
    assert_eq!(card_prefix("ZY01"), "card:ZY01:");
}

#[test]
fn test_cache_get_after_insert() {
    let mut c = AssetCache::new(10);
    c.insert("a", vec![1, 2, 3]);
    assert_eq!(c.get("a"), Some(vec![1, 2, 3]));
    assert_eq!(c.get("b"), None);
    assert_eq!(c.total_size(), 3);
}

#[test]
fn test_cache_evicts_least_recently_used() {
    let mut c = AssetCache::new(6);
    c.insert("a", vec![0; 3]);
    c.insert("b", vec![0; 3]);
    // "a" is used again, so "b" is the one to go.
    assert!(c.get("a").is_some());
    c.insert("c", vec![0; 3]);
    assert!(c.get("b").is_none());
    assert!(c.get("a").is_some());
    assert!(c.get("c").is_some());
    assert_eq!(c.total_size(), 6);
}

#[test]
fn test_cache_replaces_same_key() {
    let mut c = AssetCache::new(8);
    c.insert("a", vec![1; 5]);
    c.insert("a", vec![2; 6]);
    assert_eq!(c.get("a"), Some(vec![2; 6]));
    assert_eq!(c.total_size(), 6);
}

#[test]
fn test_cache_refuses_oversized_data() {
    let mut c = AssetCache::new(4);
    c.insert("a", vec![1; 2]);
    c.insert("big", vec![0; 5]);
    assert!(c.get("big").is_none());
    assert_eq!(c.get("a"), Some(vec![1; 2]));
    assert_eq!(c.limit(), 4);
}

#[test]
fn test_cache_evict_card_prefix() {
    let mut c = AssetCache::new(100);
    c.insert(&card_key("ZY01", "a.png"), vec![1]);
    c.insert(&card_key("ZY01", "b.png"), vec![2]);
    c.insert(&card_key("ZY02", "a.png"), vec![3]);
    c.insert(&shared_key("bg"), vec![4]);
    c.evict_prefix(&card_prefix("ZY01"));
    assert!(c.get(&card_key("ZY01", "a.png")).is_none());
    assert!(c.get(&card_key("ZY01", "b.png")).is_none());
    assert_eq!(c.get(&card_key("ZY02", "a.png")), Some(vec![3]));
    assert_eq!(c.get(&shared_key("bg")), Some(vec![4]));
    assert_eq!(c.total_size(), 2);
}

#[test]
fn test_loader_cache_limit_and_eviction() {
    let loader = FsAssetLoader::new("cards", "assets");
    assert_eq!(loader.cache.limit(), 32 * 1024 * 1024);
    let mut loader = loader.with_cache_limit(100);
    assert_eq!(loader.cache.limit(), 100);
    assert_eq!((loader.cards_dir.as_str(), loader.assets_dir.as_str()), ("cards", "assets"));
    loader.cache.insert(&card_key("test_card", "art.png"), vec![1, 2]);
    loader.cache.insert(&shared_key("logo.png"), vec![3]);
    loader.evict_card_cache(&StaticCardId("test_card".into()));
    assert!(loader.cache.get(&card_key("test_card", "art.png")).is_none());
    assert_eq!(loader.cache.get(&shared_key("logo.png")), Some(vec![3]));
}

#[test]
fn test_cache_limit_lowered_keeps_entries_until_next_store() {
    let mut c = AssetCache::new(10);
    c.insert("a", vec![0; 4]);
    c.insert("b", vec![0; 4]);
    let mut c = c.with_limit(5);
    assert_eq!(c.total_size(), 8);
    c.insert("c", vec![0; 1]);
    assert!(c.get("a").is_none());
    assert!(c.get("b").is_some());
    assert_eq!(c.total_size(), 5);
}
