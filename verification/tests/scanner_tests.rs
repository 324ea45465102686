//! Tests for the scanning logic: outfit-file classification, listings and
//! ordering.

use outfit_picker::scanner::{CategoryScanner, DirEntryRecord};
use outfit_picker::CategoryState;

fn file(name: &str) -> DirEntryRecord {
    DirEntryRecord { name: name.to_string(), is_dir: false, is_file: true }
}

fn dir(name: &str) -> DirEntryRecord {
    DirEntryRecord { name: name.to_string(), is_dir: true, is_file: false }
}

#[test]
fn test_is_avatar_file() {
    assert!(CategoryScanner::is_avatar_file("outfit.avatar"));
    assert!(!CategoryScanner::is_avatar_file("readme.txt"));
    assert!(!CategoryScanner::is_avatar_file("outfit.png"));
}

#[test]
fn test_is_avatar_file_case_sensitivity() {
    assert!(!CategoryScanner::is_avatar_file("outfit.AVATAR"));
    assert!(!CategoryScanner::is_avatar_file("outfit.Avatar"));
}

#[test]
fn test_is_avatar_file_empty() {
    assert!(!CategoryScanner::is_avatar_file(""));
    assert!(CategoryScanner::is_avatar_file(".avatar"));
}

#[test]
fn test_is_avatar_file_path_components() {
    assert!(!CategoryScanner::is_avatar_file("path/to/.avatar/file.txt"));
    assert!(CategoryScanner::is_avatar_file("path/to/outfit.avatar"));
}

#[test]
fn test_filter_avatar_files() {
    let files = vec![
        "outfit1.avatar".to_string(),
        "readme.txt".to_string(),
        "outfit2.avatar".to_string(),
        "notes.md".to_string(),
    ];

    let filtered = CategoryScanner::filter_avatar_files(&files);
    assert_eq!(filtered.len(), 2);
    assert!(filtered.contains(&"outfit1.avatar".to_string()));
    assert!(filtered.contains(&"outfit2.avatar".to_string()));
}

#[test]
fn test_filter_avatar_files_empty_list() {
    let files: Vec<String> = vec![];
    let filtered = CategoryScanner::filter_avatar_files(&files);
    assert!(filtered.is_empty());
}

#[test]
fn test_filter_avatar_files_no_matches() {
    let files = vec![
        "readme.txt".to_string(),
        "notes.md".to_string(),
        "image.png".to_string(),
    ];

    let filtered = CategoryScanner::filter_avatar_files(&files);
    assert!(filtered.is_empty());
}

#[test]
fn test_filter_avatar_files_all_matches() {
    let files = vec!["outfit1.avatar".to_string(), "outfit2.avatar".to_string()];

    let filtered = CategoryScanner::filter_avatar_files(&files);
    assert_eq!(filtered.len(), 2);
}

#[test]
fn test_scan_outfits_returns_sorted() {
    let listing = vec![file("zebra.avatar"), file("apple.avatar"), file("mango.avatar")];

    let result = CategoryScanner::scan_outfits("/closet/Category", &listing);

    assert_eq!(result.len(), 3);
    assert_eq!(result[0].file_name, "apple.avatar");
    assert_eq!(result[1].file_name, "mango.avatar");
    assert_eq!(result[2].file_name, "zebra.avatar");
    assert_eq!(result[0].category_name, "Category");
    assert_eq!(result[0].category_path, "/closet/Category".to_string());
    assert_eq!(result[0].file_path, "/closet/Category/apple.avatar".to_string());
}

#[test]
fn test_scan_outfits_ignores_non_avatar_files() {
    let listing = vec![file("outfit.avatar"), file("readme.txt"), file("image.png")];

    let result = CategoryScanner::scan_outfits("/closet/Category", &listing);

    assert_eq!(result.len(), 1);
    assert_eq!(result[0].file_name, "outfit.avatar");
}

#[test]
fn test_scan_single_category_states() {
    let excluded: Vec<String> = vec![];

    let with_outfits = vec![file("a.avatar"), file("notes.md")];
    let info = CategoryScanner::scan_single_category("Casual", "/c/Casual", &excluded, &with_outfits);
    assert_eq!(info.state, CategoryState::HasOutfits);
    assert_eq!(info.outfit_count, 1);
    assert_eq!(info.worn_count, 0);

    let no_avatars = vec![file("readme.txt")];
    let info = CategoryScanner::scan_single_category("Docs", "/c/Docs", &excluded, &no_avatars);
    assert_eq!(info.state, CategoryState::NoAvatarFiles);
    assert_eq!(info.outfit_count, 0);

    let empty: Vec<DirEntryRecord> = vec![];
    let info = CategoryScanner::scan_single_category("Empty", "/c/Empty", &excluded, &empty);
    assert_eq!(info.state, CategoryState::Empty);
    assert_eq!(info.outfit_count, 0);
}

#[test]
fn test_scan_single_category_exclusion_precedence() {
    // An excluded category reports UserExcluded whatever its listing
    // holds: all-matching files, no files at all, or only other files.
    let excluded = vec!["Casual".to_string()];

    let all_matching = vec![file("a.avatar"), file("b.avatar")];
    let info = CategoryScanner::scan_single_category("Casual", "/c/Casual", &excluded, &all_matching);
    assert_eq!(info.state, CategoryState::UserExcluded);
    assert_eq!(info.outfit_count, 0);

    let empty: Vec<DirEntryRecord> = vec![];
    let info = CategoryScanner::scan_single_category("Casual", "/c/Casual", &excluded, &empty);
    assert_eq!(info.state, CategoryState::UserExcluded);

    let other = vec![file("readme.txt")];
    let info = CategoryScanner::scan_single_category("Casual", "/c/Casual", &excluded, &other);
    assert_eq!(info.state, CategoryState::UserExcluded);
}

#[test]
fn test_category_dir_names_skips_hidden_and_files() {
    let listing = vec![
        dir("VisibleCategory"),
        dir(".HiddenCategory"),
        file("readme.txt"),
        dir("Another"),
    ];

    let names = CategoryScanner::category_dir_names(&listing);
    assert_eq!(names, vec!["VisibleCategory".to_string(), "Another".to_string()]);
}

#[test]
fn test_sort_categories_deterministic_order() {
    // Categories named Zoo, Apple and Mango come back as Apple, Mango,
    // Zoo.
    let excluded: Vec<String> = vec![];
    let listing = vec![file("x.avatar")];
    let zoo = CategoryScanner::scan_single_category("Zoo", "/c/Zoo", &excluded, &listing);
    let apple = CategoryScanner::scan_single_category("Apple", "/c/Apple", &excluded, &listing);
    let mango = CategoryScanner::scan_single_category("Mango", "/c/Mango", &excluded, &listing);

    let sorted = CategoryScanner::sort_categories(vec![zoo, apple, mango]);
    assert_eq!(sorted.len(), 3);
    assert_eq!(sorted[0].category.name, "Apple");
    assert_eq!(sorted[1].category.name, "Mango");
    assert_eq!(sorted[2].category.name, "Zoo");
}

#[test]
fn test_scan_outfits_sorting_determinism() {
    // Files b.x-style names in one category come back sorted ascending.
    let listing = vec![file("b.avatar"), file("a.avatar")];
    let result = CategoryScanner::scan_outfits("/c/One", &listing);
    assert_eq!(result.len(), 2);
    assert_eq!(result[0].file_name, "a.avatar");
    assert_eq!(result[1].file_name, "b.avatar");
}
