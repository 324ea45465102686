//! Tests for the selection engine, driven by in-memory backends.

use std::cell::RefCell;

use outfit_picker::ports::{CacheRepositoryPort, CategoryScannerPort, ConfigRepositoryPort};
use outfit_picker::scanner::{CategoryScanner, DirEntryRecord};
use outfit_picker::{
    CategoryCache, CategoryInfo, CategoryReference, CategoryState, Config, FileEntry, OutfitCache,
    OutfitPickerError, OutfitPickerService,
};

// === In-memory backends ===

struct FakeCacheRepository {
    cache: RefCell<OutfitCache>,
    fail_load: bool,
}

impl FakeCacheRepository {
    fn new() -> Self {
        FakeCacheRepository { cache: RefCell::new(OutfitCache::new()), fail_load: false }
    }

    fn failing() -> Self {
        FakeCacheRepository { cache: RefCell::new(OutfitCache::new()), fail_load: true }
    }
}

impl CacheRepositoryPort for FakeCacheRepository {
    fn load(&self) -> Result<OutfitCache, OutfitPickerError> {
        if self.fail_load {
            return Err(OutfitPickerError::Cache(outfit_picker::CacheError::DecodingFailed));
        }
        Ok(self.cache.borrow().clone())
    }

    fn save(&self, cache: &OutfitCache) -> Result<(), OutfitPickerError> {
        *self.cache.borrow_mut() = cache.clone();
        Ok(())
    }

    fn delete(&self) -> Result<(), OutfitPickerError> {
        *self.cache.borrow_mut() = OutfitCache::new();
        Ok(())
    }
}

struct FakeConfigRepository {
    config: RefCell<Option<Config>>,
}

impl FakeConfigRepository {
    fn new() -> Self {
        FakeConfigRepository { config: RefCell::new(None) }
    }
}

impl ConfigRepositoryPort for FakeConfigRepository {
    fn load(&self) -> Result<Config, OutfitPickerError> {
        match &*self.config.borrow() {
            Some(c) => Ok(c.clone()),
            None => Err(OutfitPickerError::FileSystem(
                outfit_picker::FileSystemError::FileNotFound("config.json".to_string()),
            )),
        }
    }

    fn save(&self, config: &Config) -> Result<(), OutfitPickerError> {
        *self.config.borrow_mut() = Some(config.clone());
        Ok(())
    }

    fn delete(&self) -> Result<(), OutfitPickerError> {
        *self.config.borrow_mut() = None;
        Ok(())
    }

    fn present(&self) -> bool {
        self.config.borrow().is_some()
    }
}

/// An in-memory directory tree under a fixed root: one listing per
/// category directory.
struct FakeScanner {
    root: String,
    categories: Vec<(String, Vec<DirEntryRecord>)>,
}

fn files(names: &[&str]) -> Vec<DirEntryRecord> {
    names
        .iter()
        .map(|n| DirEntryRecord { name: n.to_string(), is_dir: false, is_file: true })
        .collect()
}

impl CategoryScannerPort for FakeScanner {
    fn scan_categories(
        &self,
        root: &str,
        excluded: &Vec<String>,
    ) -> Result<Vec<CategoryInfo>, OutfitPickerError> {
        if root != self.root {
            return Err(OutfitPickerError::FileSystem(
                outfit_picker::FileSystemError::DirectoryNotFound(root.to_string()),
            ));
        }
        let mut infos = Vec::new();
        for (name, listing) in &self.categories {
            let path = format!("{}/{}", self.root, name);
            infos.push(CategoryScanner::scan_single_category(name, &path, excluded, listing));
        }
        Ok(CategoryScanner::sort_categories(infos))
    }

    fn scan_outfits(&self, category_path: &str) -> Result<Vec<FileEntry>, OutfitPickerError> {
        for (name, listing) in &self.categories {
            let path = format!("{}/{}", self.root, name);
            if path == category_path {
                return Ok(CategoryScanner::scan_outfits(category_path, listing));
            }
        }
        Err(OutfitPickerError::FileSystem(
            outfit_picker::FileSystemError::DirectoryNotFound(category_path.to_string()),
        ))
    }
}

type Picker = OutfitPickerService<FakeConfigRepository, FakeCacheRepository, FakeScanner>;

fn picker_with(categories: Vec<(&str, Vec<DirEntryRecord>)>) -> Picker {
    let scanner = FakeScanner {
        root: "/closet".to_string(),
        categories: categories.into_iter().map(|(n, l)| (n.to_string(), l)).collect(),
    };
    let config = Config::new("/closet", Some("en".to_string())).unwrap();
    OutfitPickerService::with_services(
        config,
        FakeCacheRepository::new(),
        FakeConfigRepository::new(),
        scanner,
    )
}

fn standard_picker() -> Picker {
    picker_with(vec![
        ("Casual", files(&["a.avatar", "b.avatar"])),
        ("Formal", files(&["c.avatar"])),
    ])
}

// === Shared fixtures ===

fn test_config(root: &str) -> Config {
    Config {
        root: root.to_string(),
        language: Some("en".to_string()),
        excluded_categories: Vec::new(),
        known_categories: Vec::new(),
        known_category_files: Vec::new(),
    }
}

fn test_category(name: &str, outfit_count: usize) -> CategoryInfo {
    CategoryInfo::new(
        CategoryReference::new(name, &format!("/test/{}", name)),
        CategoryState::HasOutfits,
        outfit_count,
    )
}

fn test_file_entry(category: &str, file_name: &str) -> FileEntry {
    FileEntry::new(&format!("/test/{}/{}", category, file_name))
}

fn test_cache_with_worn(category_path: &str, worn: Vec<&str>, total: usize) -> OutfitCache {
    let mut cache = OutfitCache::new();
    let mut category_cache = CategoryCache::new(total);
    for outfit in worn {
        category_cache.add_worn(outfit);
    }
    let idx = cache.get_or_create(category_path, total);
    for name in &category_cache.worn_outfits {
        cache.add_worn_at(idx, name);
    }
    cache
}

#[test]
fn test_test_config() {
    let config = test_config("/my/path");
    assert_eq!(config.root, "/my/path".to_string());
    assert_eq!(config.language, Some("en".to_string()));
}

#[test]
fn test_test_category() {
    let cat = test_category("TestCat", 42);
    assert_eq!(cat.category.name, "TestCat");
    assert_eq!(cat.outfit_count, 42);
    assert_eq!(cat.state, CategoryState::HasOutfits);
}

#[test]
fn test_test_file_entry() {
    let entry = test_file_entry("Category1", "outfit.avatar");
    assert_eq!(entry.file_name, "outfit.avatar");
    assert_eq!(entry.category_name, "Category1");
}

#[test]
fn test_test_cache_with_worn() {
    let cache = test_cache_with_worn("/test/Cat", vec!["a.avatar", "b.avatar"], 5);
    let cat = cache.get("/test/Cat").unwrap();
    assert!(cat.worn_outfits.contains(&"a.avatar".to_string()));
    assert!(cat.worn_outfits.contains(&"b.avatar".to_string()));
    assert_eq!(cat.total_outfits, 5);
}

// === Scanning through the service ===

#[test]
fn test_get_categories_lists_sorted() {
    let picker = standard_picker();
    let categories = picker.get_categories().unwrap();
    assert_eq!(categories.len(), 2);
    assert_eq!(categories[0].category.name, "Casual");
    assert_eq!(categories[1].category.name, "Formal");
}

#[test]
fn test_get_outfits() {
    let picker = standard_picker();
    let outfits = picker.get_outfits("Casual").unwrap();
    assert_eq!(outfits.len(), 2);
    assert_eq!(outfits[0].file_name, "a.avatar");
    assert_eq!(outfits[1].file_name, "b.avatar");
}

#[test]
fn test_get_outfits_unknown_category() {
    let picker = standard_picker();
    let result = picker.get_outfits("NoSuch");
    assert!(matches!(result, Err(OutfitPickerError::CategoryNotFound(_))));
}

#[test]
fn test_excluded_categories_filter_scan() {
    let mut picker = standard_picker();
    picker.exclude_category("Casual").unwrap();

    let categories = picker.get_categories().unwrap();
    assert_eq!(categories.len(), 2);
    let cat1 = categories.iter().find(|c| c.category.name == "Casual").unwrap();
    assert_eq!(cat1.state, CategoryState::UserExcluded);
    let cat2 = categories.iter().find(|c| c.category.name == "Formal").unwrap();
    assert_eq!(cat2.state, CategoryState::HasOutfits);
}

#[test]
fn test_exclude_category_empty_name() {
    let mut picker = standard_picker();
    assert!(picker.exclude_category("").is_err());
}

#[test]
fn test_include_category() {
    let mut picker = standard_picker();
    picker.exclude_category("Casual").unwrap();
    picker.include_category("Casual").unwrap();
    assert!(!picker.excluded_categories().contains(&"Casual".to_string()));
}

// === Random selection ===

#[test]
fn test_select_random_outfit() {
    let picker = standard_picker();
    let selection = picker.select_random_outfit("Casual").unwrap();
    assert!(selection.is_some());
    let selection = selection.unwrap();
    assert_eq!(selection.outfit.category_name, "Casual");
    assert!(
        selection.outfit.file_name == "a.avatar" || selection.outfit.file_name == "b.avatar"
    );
}

#[test]
fn test_select_random_outfit_marks_as_worn() {
    let picker = standard_picker();
    let selection = picker.select_random_outfit("Casual").unwrap().unwrap();
    let is_worn = picker.is_outfit_worn("Casual", &selection.outfit.file_name).unwrap();
    assert!(is_worn);
}

#[test]
fn test_select_random_outfit_empty_category_name() {
    let picker = standard_picker();
    assert!(picker.select_random_outfit("").is_err());
}

#[test]
fn test_select_random_outfit_nonexistent_category() {
    let picker = standard_picker();
    assert!(picker.select_random_outfit("NonExistent").is_err());
}

#[test]
fn test_select_random_outfit_empty_category_returns_none() {
    let picker = picker_with(vec![("Empty", vec![])]);
    let selection = picker.select_random_outfit("Empty").unwrap();
    assert!(selection.is_none());
}

#[test]
fn test_select_random_across_categories() {
    let picker = standard_picker();
    let selection = picker.select_random_outfit_across_categories().unwrap();
    assert!(selection.is_some());
    let selection = selection.unwrap();
    assert!(
        selection.outfit.category_name == "Casual" || selection.outfit.category_name == "Formal"
    );
}

#[test]
fn test_select_random_across_categories_none_available() {
    let picker = picker_with(vec![("Empty", vec![])]);
    let selection = picker.select_random_outfit_across_categories().unwrap();
    assert!(selection.is_none());
}

#[test]
fn test_selection_scenario() {
    // Root holds Casual/{a,b} and Formal/{c}. The first pick from Casual
    // is one of the two files at progress one of two without a reset;
    // the second pick is the other file at full progress; the third pick
    // reports a reset and progress one of two again.
    let picker = standard_picker();

    let first = picker.select_random_outfit("Casual").unwrap().unwrap();
    assert!(first.outfit.file_name == "a.avatar" || first.outfit.file_name == "b.avatar");
    assert_eq!((first.worn_count, first.total_count), (1, 2));
    assert!(!first.rotation_was_reset);

    let second = picker.select_random_outfit("Casual").unwrap().unwrap();
    assert_ne!(second.outfit.file_name, first.outfit.file_name);
    assert_eq!((second.worn_count, second.total_count), (2, 2));
    assert!(!second.rotation_was_reset);

    let third = picker.select_random_outfit("Casual").unwrap().unwrap();
    assert!(third.outfit.file_name == "a.avatar" || third.outfit.file_name == "b.avatar");
    assert!(third.rotation_was_reset);
    assert_eq!((third.worn_count, third.total_count), (1, 2));
}

#[test]
fn test_exhaustion_triggers_reset() {
    // For a category with one file, the second selection reports a
    // reset and a worn count of one, not two.
    let picker = standard_picker();
    picker.select_random_outfit("Formal").unwrap().unwrap();
    let again = picker.select_random_outfit("Formal").unwrap().unwrap();
    assert!(again.rotation_was_reset);
    assert_eq!(again.worn_count, 1);
}

// === Manual selection and wearing ===

#[test]
fn test_select_outfit_manually() {
    let picker = standard_picker();
    let selection = picker.select_outfit_manually("Casual", "a.avatar").unwrap();

    assert_eq!(selection.outfit.file_name, "a.avatar");
    assert_eq!(selection.outfit.category_name, "Casual");
    assert!(!selection.rotation_was_reset);

    let is_worn = picker.is_outfit_worn("Casual", "a.avatar").unwrap();
    assert!(is_worn);
}

#[test]
fn test_select_outfit_manually_nonexistent() {
    let picker = standard_picker();
    let result = picker.select_outfit_manually("Casual", "nonexistent.avatar");
    assert!(result.is_err());
    match result {
        Err(OutfitPickerError::InvalidInput(msg)) => {
            assert!(msg.contains("not found"));
        }
        _ => panic!("Expected InvalidInput error"),
    }
}

#[test]
fn test_select_outfit_manually_empty_category() {
    let picker = standard_picker();
    assert!(picker.select_outfit_manually("", "a.avatar").is_err());
}

#[test]
fn test_select_outfit_manually_empty_filename() {
    let picker = standard_picker();
    assert!(picker.select_outfit_manually("Casual", "").is_err());
}

#[test]
fn test_select_outfit_manually_updates_rotation() {
    // Progress strictly increases over distinct selections: one of two,
    // then two of two.
    let picker = standard_picker();
    let first = picker.select_outfit_manually("Casual", "a.avatar").unwrap();
    assert_eq!((first.worn_count, first.total_count), (1, 2));

    let second = picker.select_outfit_manually("Casual", "b.avatar").unwrap();
    assert_eq!((second.worn_count, second.total_count), (2, 2));
    assert!(second.worn_count > first.worn_count);
}

#[test]
fn test_select_outfit_manually_resets_rotation_when_complete() {
    let picker = standard_picker();
    picker.select_outfit_manually("Casual", "a.avatar").unwrap();
    picker.select_outfit_manually("Casual", "b.avatar").unwrap();

    let selection = picker.select_outfit_manually("Casual", "a.avatar").unwrap();
    assert!(selection.rotation_was_reset);
    assert_eq!(selection.worn_count, 1);
}

#[test]
fn test_wear_outfit_idempotent() {
    // Marking the same file worn twice leaves the worn count unchanged.
    let picker = standard_picker();
    picker.wear_outfit("Casual", "a.avatar").unwrap();
    picker.wear_outfit("Casual", "a.avatar").unwrap();
    let (worn, total) = picker.get_rotation_status("Casual").unwrap();
    assert_eq!(worn, 1);
    assert_eq!(total, 2);
}

#[test]
fn test_wear_outfit_validations() {
    let picker = standard_picker();
    assert!(picker.wear_outfit("", "a.avatar").is_err());
    assert!(picker.wear_outfit("Casual", "").is_err());
    assert!(matches!(
        picker.wear_outfit("Casual", "nope.avatar"),
        Err(OutfitPickerError::NoOutfitsAvailable)
    ));
}

// === Rotation status and listings ===

#[test]
fn test_get_rotation_status() {
    let picker = standard_picker();
    let (worn, total) = picker.get_rotation_status("Casual").unwrap();
    assert_eq!(worn, 0);
    assert_eq!(total, 2);
}

#[test]
fn test_get_rotation_status_after_wearing() {
    let picker = standard_picker();
    picker.select_random_outfit("Casual").unwrap();
    let (worn, total) = picker.get_rotation_status("Casual").unwrap();
    assert_eq!(worn, 1);
    assert_eq!(total, 2);
}

#[test]
fn test_get_rotation_status_empty_category() {
    // A category with zero files reports zero worn of zero total and an
    // incomplete rotation.
    let picker = picker_with(vec![("EmptyCategory", vec![])]);
    let (worn, total) = picker.get_rotation_status("EmptyCategory").unwrap();
    assert_eq!(worn, 0);
    assert_eq!(total, 0);
    assert!(!picker.is_rotation_complete("EmptyCategory").unwrap());
}

#[test]
fn test_is_rotation_complete() {
    let picker = standard_picker();
    assert!(!picker.is_rotation_complete("Casual").unwrap());
    picker.select_random_outfit("Casual").unwrap();
    picker.select_random_outfit("Casual").unwrap();
    assert!(picker.is_rotation_complete("Casual").unwrap());
}

#[test]
fn test_get_unworn_outfits() {
    let picker = standard_picker();
    let unworn = picker.get_unworn_outfits("Casual").unwrap();
    assert_eq!(unworn.len(), 2);

    picker.select_outfit_manually("Casual", "a.avatar").unwrap();

    let unworn = picker.get_unworn_outfits("Casual").unwrap();
    assert_eq!(unworn.len(), 1);
    assert_eq!(unworn[0].file_name, "b.avatar");
}

#[test]
fn test_get_worn_outfits() {
    let picker = standard_picker();
    let worn = picker.get_worn_outfits("Casual").unwrap();
    assert_eq!(worn.len(), 0);

    picker.select_outfit_manually("Casual", "a.avatar").unwrap();

    let worn = picker.get_worn_outfits("Casual").unwrap();
    assert_eq!(worn.len(), 1);
    assert_eq!(worn[0].file_name, "a.avatar");
}

#[test]
fn test_get_unworn_outfits_empty_category() {
    let picker = picker_with(vec![("EmptyCategory", vec![])]);
    let unworn = picker.get_unworn_outfits("EmptyCategory").unwrap();
    assert_eq!(unworn.len(), 0);
}

#[test]
fn test_get_all_worn_outfits() {
    let picker = standard_picker();
    let worn = picker.get_all_worn_outfits().unwrap();
    assert!(worn.is_empty());

    picker.select_outfit_manually("Formal", "c.avatar").unwrap();
    picker.select_outfit_manually("Casual", "b.avatar").unwrap();
    picker.select_outfit_manually("Casual", "a.avatar").unwrap();

    let worn = picker.get_all_worn_outfits().unwrap();
    assert_eq!(worn.len(), 2);
    // Sorted by category path, worn names sorted within.
    assert_eq!(worn[0].0, "/closet/Casual");
    assert_eq!(worn[0].1, vec!["a.avatar".to_string(), "b.avatar".to_string()]);
    assert_eq!(worn[1].0, "/closet/Formal");
    assert_eq!(worn[1].1, vec!["c.avatar".to_string()]);
}

#[test]
fn test_cache_load_failure() {
    let scanner = FakeScanner { root: "/closet".to_string(), categories: vec![] };
    let config = Config::new("/closet", Some("en".to_string())).unwrap();
    let picker = OutfitPickerService::with_services(
        config,
        FakeCacheRepository::failing(),
        FakeConfigRepository::new(),
        scanner,
    );
    let result = picker.get_all_worn_outfits();
    assert!(matches!(
        result,
        Err(OutfitPickerError::Cache(outfit_picker::CacheError::DecodingFailed))
    ));
}

// === Resets ===

#[test]
fn test_service_reset_category() {
    let picker = standard_picker();
    picker.select_outfit_manually("Casual", "a.avatar").unwrap();
    picker.select_outfit_manually("Formal", "c.avatar").unwrap();

    picker.reset_category("Casual").unwrap();

    let (worn, _) = picker.get_rotation_status("Casual").unwrap();
    assert_eq!(worn, 0);
    let (worn_formal, _) = picker.get_rotation_status("Formal").unwrap();
    assert_eq!(worn_formal, 1);
}

#[test]
fn test_reset_all_categories() {
    let picker = standard_picker();
    picker.select_outfit_manually("Casual", "a.avatar").unwrap();
    picker.select_outfit_manually("Formal", "c.avatar").unwrap();

    picker.reset_all_categories().unwrap();

    assert_eq!(picker.get_rotation_status("Casual").unwrap().0, 0);
    assert_eq!(picker.get_rotation_status("Formal").unwrap().0, 0);
}

#[test]
fn test_factory_reset() {
    let picker = standard_picker();
    picker.select_outfit_manually("Casual", "a.avatar").unwrap();
    picker.factory_reset().unwrap();
    assert_eq!(picker.get_rotation_status("Casual").unwrap().0, 0);
}

// === Configuration handling ===

#[test]
fn test_update_config() {
    let mut picker = standard_picker();
    let mut new_config = picker.config().clone();
    new_config.language = Some("es".to_string());
    picker.update_config(new_config).unwrap();
    assert_eq!(picker.config().language, Some("es".to_string()));
}

#[test]
fn test_change_language() {
    let mut picker = standard_picker();
    picker.change_language(Some("es".to_string())).unwrap();
    assert_eq!(picker.language(), Some("es"));
    picker.change_language(Some("fr".to_string())).unwrap();
    assert_eq!(picker.language(), Some("fr"));
}

#[test]
fn test_change_language_to_none() {
    let mut picker = standard_picker();
    picker.change_language(Some("es".to_string())).unwrap();
    picker.change_language(None).unwrap();
    assert_eq!(picker.language(), None);
}

#[test]
fn test_change_language_invalid() {
    let mut picker = standard_picker();
    assert!(picker.change_language(Some("xyz".to_string())).is_err());
}

#[test]
fn test_change_root_path_invalid_path() {
    let mut picker = standard_picker();
    assert!(picker.change_root_path("../../../etc", false).is_err());
    assert!(picker.change_root_path("", false).is_err());
}

#[test]
fn test_change_root_path_same_path_no_op() {
    let mut picker = standard_picker();
    picker.change_root_path("/closet", false).unwrap();
    assert_eq!(picker.root_path(), "/closet");
}

#[test]
fn test_stale_total_blocks_selection() {
    // The recorded total is sticky until a reset: an entry created when
    // the category once held five files keeps judging completion
    // against five. With only two files left, both worn, the rotation
    // is not complete, no candidate remains, and nothing is selected.
    let mut seeded = OutfitCache::new();
    let idx = seeded.get_or_create("/closet/Casual", 5);
    seeded.add_worn_at(idx, "a.avatar");
    seeded.add_worn_at(idx, "b.avatar");

    let scanner = FakeScanner {
        root: "/closet".to_string(),
        categories: vec![("Casual".to_string(), files(&["a.avatar", "b.avatar"]))],
    };
    let repo = FakeCacheRepository::new();
    repo.save(&seeded).unwrap();
    let config = Config::new("/closet", Some("en".to_string())).unwrap();
    let picker =
        OutfitPickerService::with_services(config, repo, FakeConfigRepository::new(), scanner);

    let selection = picker.select_random_outfit("Casual").unwrap();
    assert!(selection.is_none());
    // The live status reports two of two worn, while the sticky total
    // keeps the rotation from completing at five.
    let (worn, total) = picker.get_rotation_status("Casual").unwrap();
    assert_eq!((worn, total), (2, 2));
}

#[test]
fn test_full_cycle_selects_each_file_once() {
    // Over one cycle of a three-file category every file is selected
    // exactly once, with progress one, two, three of three.
    let picker = picker_with(vec![(
        "Trio",
        files(&["x.avatar", "y.avatar", "z.avatar"]),
    )]);
    let mut seen = Vec::new();
    for step in 1..=3usize {
        let sel = picker.select_random_outfit("Trio").unwrap().unwrap();
        assert!(!sel.rotation_was_reset);
        assert_eq!((sel.worn_count, sel.total_count), (step, 3));
        assert!(!seen.contains(&sel.outfit.file_name));
        seen.push(sel.outfit.file_name);
    }
}
