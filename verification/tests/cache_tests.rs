//! Tests for the rotation cache: per-category worn tracking, completion,
//! resets, and the persisted row form.

use outfit_picker::{CategoryCache, OutfitCache};

// === CategoryCache ===

#[test]
fn test_category_cache_new() {
    let cache = CategoryCache::new(5);
    assert_eq!(cache.total_outfits, 5);
    assert!(cache.worn_outfits.is_empty());
}

#[test]
fn test_category_cache_add_worn() {
    let mut cache = CategoryCache::new(5);
    cache.add_worn("outfit1.avatar");
    cache.add_worn("outfit2.avatar");

    assert_eq!(cache.worn_outfits.len(), 2);
    assert!(cache.worn_outfits.contains(&"outfit1.avatar".to_string()));
    assert!(cache.worn_outfits.contains(&"outfit2.avatar".to_string()));
}

#[test]
fn test_category_cache_add_worn_duplicate() {
    let mut cache = CategoryCache::new(5);
    cache.add_worn("outfit1.avatar");
    cache.add_worn("outfit1.avatar");

    assert_eq!(cache.worn_outfits.len(), 1);
}

#[test]
fn test_category_cache_is_rotation_complete() {
    let mut cache = CategoryCache::new(3);
    assert!(!cache.is_rotation_complete());

    cache.add_worn("outfit1.avatar");
    assert!(!cache.is_rotation_complete());

    cache.add_worn("outfit2.avatar");
    assert!(!cache.is_rotation_complete());

    cache.add_worn("outfit3.avatar");
    assert!(cache.is_rotation_complete());
}

#[test]
fn test_category_cache_rotation_progress() {
    let mut cache = CategoryCache::new(4);
    assert_eq!(cache.rotation_progress(), (0, 4));

    cache.add_worn("outfit1.avatar");
    assert_eq!(cache.rotation_progress(), (1, 4));

    cache.add_worn("outfit2.avatar");
    assert_eq!(cache.rotation_progress(), (2, 4));

    cache.add_worn("outfit3.avatar");
    assert_eq!(cache.rotation_progress(), (3, 4));

    cache.add_worn("outfit4.avatar");
    assert_eq!(cache.rotation_progress(), (4, 4));
}

#[test]
fn test_category_cache_rotation_progress_zero_total() {
    let cache = CategoryCache::new(0);
    assert_eq!(cache.rotation_progress(), (1, 1));
}

#[test]
fn test_category_cache_remaining_outfits() {
    let mut cache = CategoryCache::new(5);
    assert_eq!(cache.remaining_outfits(), 5);

    cache.add_worn("outfit1.avatar");
    assert_eq!(cache.remaining_outfits(), 4);

    cache.add_worn("outfit2.avatar");
    cache.add_worn("outfit3.avatar");
    assert_eq!(cache.remaining_outfits(), 2);
}

#[test]
fn test_category_cache_reset() {
    let mut cache = CategoryCache::new(5);
    cache.add_worn("outfit1.avatar");
    cache.add_worn("outfit2.avatar");

    cache.reset();

    assert!(cache.worn_outfits.is_empty());
    assert_eq!(cache.total_outfits, 5);
}

// === OutfitCache ===

#[test]
fn test_outfit_cache_new() {
    let cache = OutfitCache::new();
    assert!(cache.categories.is_empty());
    assert_eq!(cache.version, 1);
}

#[test]
fn test_outfit_cache_default() {
    let cache = OutfitCache::default();
    assert!(cache.categories.is_empty());
}

#[test]
fn test_outfit_cache_get_or_create_new() {
    let mut cache = OutfitCache::new();
    let idx = cache.get_or_create("/path/Category1", 5);

    assert_eq!(cache.categories[idx].entry.total_outfits, 5);
    assert!(cache.categories[idx].entry.worn_outfits.is_empty());
}

#[test]
fn test_outfit_cache_get_or_create_existing() {
    let mut cache = OutfitCache::new();

    let idx = cache.get_or_create("/path/Category1", 5);
    cache.add_worn_at(idx, "outfit1.avatar");

    let idx2 = cache.get_or_create("/path/Category1", 10);

    // The existing entry is returned untouched; the new total is ignored.
    assert_eq!(idx2, idx);
    assert_eq!(cache.categories[idx2].entry.total_outfits, 5);
    assert!(cache.categories[idx2]
        .entry
        .worn_outfits
        .contains(&"outfit1.avatar".to_string()));
}

#[test]
fn test_outfit_cache_reset_all() {
    let mut cache = OutfitCache::new();

    let i1 = cache.get_or_create("/path/Category1", 5);
    cache.add_worn_at(i1, "outfit1.avatar");
    let i2 = cache.get_or_create("/path/Category2", 3);
    cache.add_worn_at(i2, "outfit2.avatar");

    cache.reset_all();

    assert!(cache.get("/path/Category1").unwrap().worn_outfits.is_empty());
    assert!(cache.get("/path/Category2").unwrap().worn_outfits.is_empty());
    assert_eq!(cache.get("/path/Category1").unwrap().total_outfits, 5);
    assert_eq!(cache.get("/path/Category2").unwrap().total_outfits, 3);
}

#[test]
fn test_outfit_cache_remove() {
    let mut cache = OutfitCache::new();
    cache.get_or_create("/path/Category1", 5);
    cache.get_or_create("/path/Category2", 3);

    cache.remove("/path/Category1");

    assert!(cache.get("/path/Category1").is_none());
    assert!(cache.get("/path/Category2").is_some());
}

// === Persisted row form ===

#[test]
fn test_cache_rows_round_trip() {
    // Two categories, one worn file each: exporting then rebuilding
    // reproduces identical worn sets and totals.
    let mut cache = OutfitCache::new();
    let i1 = cache.get_or_create("/closet/Casual", 2);
    cache.add_worn_at(i1, "a.avatar");
    let i2 = cache.get_or_create("/closet/Formal", 1);
    cache.add_worn_at(i2, "c.avatar");

    let rows = cache.export_rows();
    let rebuilt = OutfitCache::from_rows(cache.version, cache.created_at, rows);

    assert_eq!(rebuilt.version, cache.version);
    assert_eq!(rebuilt.created_at, cache.created_at);
    assert_eq!(rebuilt.categories.len(), 2);
    let casual = rebuilt.get("/closet/Casual").unwrap();
    assert_eq!(casual.worn_outfits, vec!["a.avatar".to_string()]);
    assert_eq!(casual.total_outfits, 2);
    let formal = rebuilt.get("/closet/Formal").unwrap();
    assert_eq!(formal.worn_outfits, vec!["c.avatar".to_string()]);
    assert_eq!(formal.total_outfits, 1);
}

#[test]
fn test_cache_from_rows_drops_duplicate_paths() {
    let mut cache = OutfitCache::new();
    cache.get_or_create("/closet/Casual", 2);
    let mut rows = cache.export_rows();
    let extra = outfit_picker::CacheRow {
        category_path: "/closet/Casual".to_string(),
        worn_outfits: vec!["b.avatar".to_string()],
        total_outfits: 9,
        last_updated: 0,
    };
    rows.push(extra);

    let rebuilt = OutfitCache::from_rows(1, 0, rows);
    assert_eq!(rebuilt.categories.len(), 1);
    assert_eq!(rebuilt.get("/closet/Casual").unwrap().total_outfits, 2);
}

#[test]
fn test_category_cache_progress_clamped() {
    // With more names worn than the sticky total — possible when files
    // are worn after the recorded total went stale — progress is
    // clamped to full rather than exceeding it.
    let mut cache = CategoryCache::new(2);
    cache.add_worn("a.avatar");
    cache.add_worn("b.avatar");
    cache.add_worn("c.avatar");
    assert_eq!(cache.worn_outfits.len(), 3);
    assert_eq!(cache.rotation_progress(), (2, 2));
}
