//! Tests for the use-case layer over the scanner and cache ports.

use std::cell::RefCell;

use outfit_picker::ports::{CacheRepositoryPort, CategoryScannerPort};
use outfit_picker::scanner::{CategoryScanner, DirEntryRecord};
use outfit_picker::{
    CategoryInfo, CategoryState, FileEntry, GetCategoriesUseCase, OutfitCache, OutfitPickerError,
    ResetCategoryUseCase, SelectOutfitUseCase, WearOutfitUseCase,
};

struct MemoryCache {
    cache: RefCell<OutfitCache>,
}

impl MemoryCache {
    fn new() -> Self {
        MemoryCache { cache: RefCell::new(OutfitCache::new()) }
    }
}

impl CacheRepositoryPort for MemoryCache {
    fn load(&self) -> Result<OutfitCache, OutfitPickerError> {
        Ok(self.cache.borrow().clone())
    }

    fn save(&self, cache: &OutfitCache) -> Result<(), OutfitPickerError> {
        *self.cache.borrow_mut() = cache.clone();
        Ok(())
    }

    fn delete(&self) -> Result<(), OutfitPickerError> {
        *self.cache.borrow_mut() = OutfitCache::new();
        Ok(())
    }
}

struct ListingScanner {
    root: String,
    categories: Vec<(String, Vec<DirEntryRecord>)>,
}

fn files(names: &[&str]) -> Vec<DirEntryRecord> {
    names
        .iter()
        .map(|n| DirEntryRecord { name: n.to_string(), is_dir: false, is_file: true })
        .collect()
}

impl CategoryScannerPort for ListingScanner {
    fn scan_categories(
        &self,
        root: &str,
        excluded: &Vec<String>,
    ) -> Result<Vec<CategoryInfo>, OutfitPickerError> {
        if root != self.root {
            return Err(OutfitPickerError::FileSystem(
                outfit_picker::FileSystemError::DirectoryNotFound(root.to_string()),
            ));
        }
        let mut infos = Vec::new();
        for (name, listing) in &self.categories {
            let path = format!("{}/{}", self.root, name);
            infos.push(CategoryScanner::scan_single_category(name, &path, excluded, listing));
        }
        Ok(CategoryScanner::sort_categories(infos))
    }

    fn scan_outfits(&self, category_path: &str) -> Result<Vec<FileEntry>, OutfitPickerError> {
        for (name, listing) in &self.categories {
            let path = format!("{}/{}", self.root, name);
            if path == category_path {
                return Ok(CategoryScanner::scan_outfits(category_path, listing));
            }
        }
        Err(OutfitPickerError::FileSystem(
            outfit_picker::FileSystemError::DirectoryNotFound(category_path.to_string()),
        ))
    }
}

fn standard_scanner() -> ListingScanner {
    ListingScanner {
        root: "/closet".to_string(),
        categories: vec![
            ("Casual".to_string(), files(&["a.avatar", "b.avatar"])),
            ("Formal".to_string(), files(&["c.avatar"])),
        ],
    }
}

#[test]
fn test_get_categories_use_case() {
    let cache = MemoryCache::new();
    let scanner = standard_scanner();
    let use_case = GetCategoriesUseCase::new(&cache, &scanner);

    let excluded: Vec<String> = vec![];
    let categories = use_case.execute("/closet", &excluded).unwrap();
    assert_eq!(categories.len(), 2);
    assert_eq!(categories[0].category.name, "Casual");
    assert_eq!(categories[0].state, CategoryState::HasOutfits);
    assert_eq!(categories[0].worn_count, 0);
}

#[test]
fn test_get_categories_use_case_scan_failure() {
    let cache = MemoryCache::new();
    let scanner = standard_scanner();
    let use_case = GetCategoriesUseCase::new(&cache, &scanner);

    let excluded: Vec<String> = vec![];
    let result = use_case.execute("/elsewhere", &excluded);
    assert!(matches!(result, Err(OutfitPickerError::FileSystem(_))));
}

#[test]
fn test_select_outfit_use_case() {
    let cache = MemoryCache::new();
    let scanner = standard_scanner();
    let use_case = SelectOutfitUseCase::new(&cache, &scanner);

    let excluded: Vec<String> = vec![];
    let selection = use_case.execute("/closet", &excluded, "Formal").unwrap().unwrap();
    assert_eq!(selection.outfit.file_name, "c.avatar");
    assert_eq!((selection.worn_count, selection.total_count), (1, 1));
    assert!(!selection.rotation_was_reset);

    // Exhausted after one pick: the next selection resets.
    let again = use_case.execute("/closet", &excluded, "Formal").unwrap().unwrap();
    assert!(again.rotation_was_reset);
    assert_eq!(again.worn_count, 1);
}

#[test]
fn test_select_outfit_use_case_across_categories() {
    let cache = MemoryCache::new();
    let scanner = standard_scanner();
    let use_case = SelectOutfitUseCase::new(&cache, &scanner);

    let excluded: Vec<String> = vec![];
    let selection = use_case.execute_across_categories("/closet", &excluded).unwrap();
    assert!(selection.is_some());
}

#[test]
fn test_wear_outfit_use_case() {
    let cache = MemoryCache::new();
    let scanner = standard_scanner();
    let use_case = WearOutfitUseCase::new(&cache, &scanner);

    let excluded: Vec<String> = vec![];
    use_case.execute("/closet", &excluded, "Casual", "a.avatar").unwrap();
    use_case.execute("/closet", &excluded, "Casual", "a.avatar").unwrap();

    let stored = cache.load().unwrap();
    let entry = stored.get("/closet/Casual").unwrap();
    assert_eq!(entry.worn_outfits, vec!["a.avatar".to_string()]);
}

#[test]
fn test_wear_outfit_use_case_with_selection() {
    let cache = MemoryCache::new();
    let scanner = standard_scanner();
    let use_case = WearOutfitUseCase::new(&cache, &scanner);

    let excluded: Vec<String> = vec![];
    let selection = use_case
        .execute_with_selection("/closet", &excluded, "Casual", "b.avatar")
        .unwrap();
    assert_eq!(selection.outfit.file_name, "b.avatar");
    assert_eq!((selection.worn_count, selection.total_count), (1, 2));
}

#[test]
fn test_wear_outfit_use_case_missing_outfit() {
    let cache = MemoryCache::new();
    let scanner = standard_scanner();
    let use_case = WearOutfitUseCase::new(&cache, &scanner);

    let excluded: Vec<String> = vec![];
    let result = use_case.execute("/closet", &excluded, "Casual", "nope.avatar");
    assert!(matches!(result, Err(OutfitPickerError::NoOutfitsAvailable)));
}

#[test]
fn test_reset_category_use_case() {
    let cache = MemoryCache::new();
    let scanner = standard_scanner();
    let wear = WearOutfitUseCase::new(&cache, &scanner);
    let reset = ResetCategoryUseCase::new(&cache, &scanner);

    let excluded: Vec<String> = vec![];
    wear.execute("/closet", &excluded, "Casual", "a.avatar").unwrap();
    reset.execute("/closet", &excluded, "Casual").unwrap();

    let stored = cache.load().unwrap();
    let entry = stored.get("/closet/Casual").unwrap();
    assert!(entry.worn_outfits.is_empty());
    assert_eq!(entry.total_outfits, 2);
}

#[test]
fn test_reset_all_use_case() {
    let cache = MemoryCache::new();
    let scanner = standard_scanner();
    let wear = WearOutfitUseCase::new(&cache, &scanner);
    let reset = ResetCategoryUseCase::new(&cache, &scanner);

    let excluded: Vec<String> = vec![];
    wear.execute("/closet", &excluded, "Casual", "a.avatar").unwrap();
    wear.execute("/closet", &excluded, "Formal", "c.avatar").unwrap();
    reset.execute_all().unwrap();

    let stored = cache.load().unwrap();
    assert!(stored.get("/closet/Casual").unwrap().worn_outfits.is_empty());
    assert!(stored.get("/closet/Formal").unwrap().worn_outfits.is_empty());
}
