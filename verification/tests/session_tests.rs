//! Tests for session-scoped skip tracking.

use outfit_picker::OutfitSession;

#[test]
fn test_new_session_is_empty() {
    let session = OutfitSession::new();
    assert_eq!(session.skipped_count_in_category("any"), 0);
    assert_eq!(session.global_skipped_count(), 0);
}

#[test]
fn test_skip_in_category() {
    let mut session = OutfitSession::new();

    session.skip_in_category("Casual", "outfit1.avatar");
    session.skip_in_category("Casual", "outfit2.avatar");
    session.skip_in_category("Formal", "outfit3.avatar");

    assert!(session.is_skipped_in_category("Casual", "outfit1.avatar"));
    assert!(session.is_skipped_in_category("Casual", "outfit2.avatar"));
    assert!(session.is_skipped_in_category("Formal", "outfit3.avatar"));

    assert!(!session.is_skipped_in_category("Formal", "outfit1.avatar"));
    assert!(!session.is_skipped_in_category("Casual", "outfit3.avatar"));

    assert_eq!(session.skipped_count_in_category("Casual"), 2);
    assert_eq!(session.skipped_count_in_category("Formal"), 1);
}

#[test]
fn test_skip_global() {
    let mut session = OutfitSession::new();

    session.skip_global("outfit1.avatar");
    session.skip_global("outfit2.avatar");

    assert!(session.is_skipped_global("outfit1.avatar"));
    assert!(session.is_skipped_global("outfit2.avatar"));
    assert!(!session.is_skipped_global("outfit3.avatar"));

    assert_eq!(session.global_skipped_count(), 2);
}

#[test]
fn test_reset_category() {
    let mut session = OutfitSession::new();

    session.skip_in_category("Casual", "outfit1.avatar");
    session.skip_in_category("Formal", "outfit2.avatar");

    session.reset_category("Casual");

    assert!(!session.is_skipped_in_category("Casual", "outfit1.avatar"));
    assert!(session.is_skipped_in_category("Formal", "outfit2.avatar"));
    assert_eq!(session.skipped_count_in_category("Casual"), 0);
}

#[test]
fn test_reset_global() {
    let mut session = OutfitSession::new();

    session.skip_global("outfit1.avatar");
    session.skip_global("outfit2.avatar");
    session.skip_in_category("Casual", "outfit3.avatar");

    session.reset_global();

    assert!(!session.is_skipped_global("outfit1.avatar"));
    assert!(!session.is_skipped_global("outfit2.avatar"));
    assert!(session.is_skipped_in_category("Casual", "outfit3.avatar"));
}

#[test]
fn test_reset_all() {
    let mut session = OutfitSession::new();

    session.skip_global("outfit1.avatar");
    session.skip_in_category("Casual", "outfit2.avatar");

    session.reset_all();

    assert!(!session.is_skipped_global("outfit1.avatar"));
    assert!(!session.is_skipped_in_category("Casual", "outfit2.avatar"));
    assert_eq!(session.global_skipped_count(), 0);
    assert_eq!(session.skipped_count_in_category("Casual"), 0);
}

#[test]
fn test_filter_category_skipped() {
    let mut session = OutfitSession::new();
    session.skip_in_category("Casual", "outfit2.avatar");

    let all_outfits = vec![
        "outfit1.avatar".to_string(),
        "outfit2.avatar".to_string(),
        "outfit3.avatar".to_string(),
    ];

    let filtered = session.filter_category_skipped("Casual", &all_outfits);

    assert_eq!(filtered.len(), 2);
    assert!(filtered.contains(&"outfit1.avatar".to_string()));
    assert!(filtered.contains(&"outfit3.avatar".to_string()));
    assert!(!filtered.contains(&"outfit2.avatar".to_string()));
}

#[test]
fn test_filter_global_skipped() {
    let mut session = OutfitSession::new();
    session.skip_global("outfit1.avatar");
    session.skip_global("outfit3.avatar");

    let all_outfits = vec![
        "outfit1.avatar".to_string(),
        "outfit2.avatar".to_string(),
        "outfit3.avatar".to_string(),
    ];

    let filtered = session.filter_global_skipped(&all_outfits);

    assert_eq!(filtered.len(), 1);
    assert!(filtered.contains(&"outfit2.avatar".to_string()));
}

#[test]
fn test_skip_same_outfit_twice_is_idempotent() {
    let mut session = OutfitSession::new();

    session.skip_in_category("Casual", "outfit1.avatar");
    session.skip_in_category("Casual", "outfit1.avatar");

    assert_eq!(session.skipped_count_in_category("Casual"), 1);
}

#[test]
fn test_category_and_global_are_independent() {
    let mut session = OutfitSession::new();

    session.skip_in_category("Casual", "outfit1.avatar");
    session.skip_global("outfit1.avatar");

    assert!(session.is_skipped_in_category("Casual", "outfit1.avatar"));
    assert!(session.is_skipped_global("outfit1.avatar"));

    session.reset_category("Casual");
    assert!(!session.is_skipped_in_category("Casual", "outfit1.avatar"));
    assert!(session.is_skipped_global("outfit1.avatar"));
}

#[test]
fn test_empty_filter_returns_all() {
    let session = OutfitSession::new();

    let all_outfits = vec!["outfit1.avatar".to_string(), "outfit2.avatar".to_string()];

    let filtered = session.filter_category_skipped("Casual", &all_outfits);
    assert_eq!(filtered.len(), 2);

    let global_filtered = session.filter_global_skipped(&all_outfits);
    assert_eq!(global_filtered.len(), 2);
}
