//! Narrow use cases over the scanner and cache ports.
//!
//! Each use case borrows its backends and carries one operation of the
//! selection engine: listing categories, selecting, wearing, resetting.
//! They share the verified rotation logic with `OutfitPickerService`.

use vstd::prelude::*;

use crate::error::OutfitPickerError;
use crate::models::{CategoryInfo, FileEntry, OutfitSelection};
use crate::picker::{
    cache_or_empty, categories_with_outfits, find_category, manual_lookup, merge_worn_counts,
    record_selection, select_outfit_from_listing, wear_in_cache, wear_lookup,
};
use crate::ports::{CacheRepositoryPort, CategoryScannerPort};
use crate::text::{is_blank, str_is_blank};

verus! {

/// Lists categories with their worn counts filled from the cache.
pub struct GetCategoriesUseCase<'a, M, S> {
    cache_repository: &'a M,
    scanner: &'a S,
}

impl<'a, M: CacheRepositoryPort, S: CategoryScannerPort> GetCategoriesUseCase<'a, M, S> {
    /// Binds the use case to its backends.
    pub fn new(cache_repository: &'a M, scanner: &'a S) -> (r: GetCategoriesUseCase<'a, M, S>) {
        GetCategoriesUseCase { cache_repository, scanner }
    }

    /// Scans for the available categories and fills each one's worn
    /// count from the cache; an unreadable cache counts as empty.
    pub fn execute(&self, root: &str, excluded_categories: &Vec<String>) -> (r: Result<
        Vec<CategoryInfo>,
        OutfitPickerError,
    >) {
        let categories = match self.scanner.scan_categories(root, excluded_categories) {
            Err(e) => {
                return Err(e);
            },
            Ok(c) => c,
        };
        let cache = cache_or_empty(self.cache_repository.load());
        Ok(merge_worn_counts(categories, &cache))
    }
}

/// Selects random outfits with rotation tracking.
pub struct SelectOutfitUseCase<'a, M, S> {
    cache_repository: &'a M,
    scanner: &'a S,
}

impl<'a, M: CacheRepositoryPort, S: CategoryScannerPort> SelectOutfitUseCase<'a, M, S> {
    /// Binds the use case to its backends.
    pub fn new(cache_repository: &'a M, scanner: &'a S) -> (r: SelectOutfitUseCase<'a, M, S>) {
        SelectOutfitUseCase { cache_repository, scanner }
    }

    /// Selects a random outfit from the named category, marks it worn
    /// and persists the cache; no outfits yields no selection.
    pub fn execute(&self, root: &str, excluded_categories: &Vec<String>, category_name: &str)
        -> (r: Result<Option<OutfitSelection>, OutfitPickerError>)
        ensures
            is_blank(category_name@) ==> (r matches Err(e) && (e matches
                OutfitPickerError::InvalidInput(m) && m@ == "Category name cannot be empty"@)),
            r matches Ok(Some(sel)) ==> ((sel.rotation_was_reset ==> sel.worn_count == 1)
                && sel.worn_count >= 1),
    {
        if str_is_blank(category_name) {
            return Err(OutfitPickerError::InvalidInput(String::from_str(
                "Category name cannot be empty",
            )));
        }
        let outfits = match self.category_outfits(root, excluded_categories, category_name) {
            Err(e) => {
                return Err(e);
            },
            Ok(o) => o,
        };
        if outfits.len() == 0 {
            return Ok(None);
        }
        let mut cache = match self.cache_repository.load() {
            Err(e) => {
                return Err(e);
            },
            Ok(c) => c,
        };
        let path = outfits[0].category_path.clone();
        match select_outfit_from_listing(&mut cache, path.as_str(), &outfits) {
            None => Ok(None),
            Some(sel) => {
                match self.cache_repository.save(&cache) {
                    Err(e) => Err(e),
                    Ok(_) => Ok(Some(sel)),
                }
            },
        }
    }

    /// Selects a random outfit from a random category that has outfits.
    pub fn execute_across_categories(&self, root: &str, excluded_categories: &Vec<String>) -> (r:
        Result<Option<OutfitSelection>, OutfitPickerError>)
        ensures
            r matches Ok(Some(sel)) ==> ((sel.rotation_was_reset ==> sel.worn_count == 1)
                && sel.worn_count >= 1),
    {
        let categories = match self.scanner.scan_categories(root, excluded_categories) {
            Err(e) => {
                return Err(e);
            },
            Ok(c) => c,
        };
        let available = categories_with_outfits(&categories);
        if available.len() == 0 {
            return Ok(None);
        }
        let pick = crate::picker::random_index(available.len());
        let chosen = available[pick];
        let name = categories[chosen].category.name.clone();
        self.execute(root, excluded_categories, name.as_str())
    }

    /// Lists the outfits of the named category.
    fn category_outfits(&self, root: &str, excluded_categories: &Vec<String>, category_name: &str)
        -> (r: Result<Vec<FileEntry>, OutfitPickerError>) {
        let categories = match self.scanner.scan_categories(root, excluded_categories) {
            Err(e) => {
                return Err(e);
            },
            Ok(c) => c,
        };
        match find_category(&categories, category_name) {
            None => Err(OutfitPickerError::CategoryNotFound(category_name.to_owned())),
            Some(i) => self.scanner.scan_outfits(categories[i].category.path.as_str()),
        }
    }
}

/// Marks outfits as worn, with or without selection metadata.
pub struct WearOutfitUseCase<'a, M, S> {
    cache_repository: &'a M,
    scanner: &'a S,
}

impl<'a, M: CacheRepositoryPort, S: CategoryScannerPort> WearOutfitUseCase<'a, M, S> {
    /// Binds the use case to its backends.
    pub fn new(cache_repository: &'a M, scanner: &'a S) -> (r: WearOutfitUseCase<'a, M, S>) {
        WearOutfitUseCase { cache_repository, scanner }
    }

    /// Marks an outfit as worn without reporting rotation progress; the
    /// outfit must exist in the category's current listing.
    pub fn execute(
        &self,
        root: &str,
        excluded_categories: &Vec<String>,
        category_name: &str,
        file_name: &str,
    ) -> (r: Result<(), OutfitPickerError>)
        ensures
            is_blank(category_name@) ==> (r matches Err(e) && (e matches
                OutfitPickerError::InvalidInput(m) && m@ == "Category name cannot be empty"@)),
            (!is_blank(category_name@) && is_blank(file_name@)) ==> (r matches Err(e) && (e
                matches OutfitPickerError::InvalidInput(m) && m@ == "File name cannot be empty"@)),
    {
        if str_is_blank(category_name) {
            return Err(OutfitPickerError::InvalidInput(String::from_str(
                "Category name cannot be empty",
            )));
        }
        if str_is_blank(file_name) {
            return Err(OutfitPickerError::InvalidInput(String::from_str(
                "File name cannot be empty",
            )));
        }
        let outfits = match self.category_outfits(root, excluded_categories, category_name) {
            Err(e) => {
                return Err(e);
            },
            Ok(o) => o,
        };
        match wear_lookup(&outfits, file_name) {
            Err(e) => Err(e),
            Ok(_) => {
                let mut cache = match self.cache_repository.load() {
                    Err(e) => {
                        return Err(e);
                    },
                    Ok(c) => c,
                };
                let path = outfits[0].category_path.clone();
                wear_in_cache(&mut cache, path.as_str(), outfits.len(), file_name);
                self.cache_repository.save(&cache)
            },
        }
    }

    /// Manually selects a specific outfit by name and reports selection
    /// metadata; the outfit must exist in the category's current
    /// listing.
    pub fn execute_with_selection(
        &self,
        root: &str,
        excluded_categories: &Vec<String>,
        category_name: &str,
        file_name: &str,
    ) -> (r: Result<OutfitSelection, OutfitPickerError>)
        ensures
            is_blank(category_name@) ==> (r matches Err(e) && (e matches
                OutfitPickerError::InvalidInput(m) && m@ == "Category name cannot be empty"@)),
            (!is_blank(category_name@) && is_blank(file_name@)) ==> (r matches Err(e) && (e
                matches OutfitPickerError::InvalidInput(m) && m@ == "File name cannot be empty"@)),
            r matches Ok(sel) ==> (sel.outfit.file_name@ == file_name@ && (sel.rotation_was_reset
                ==> sel.worn_count == 1) && sel.worn_count >= 1),
    {
        if str_is_blank(category_name) {
            return Err(OutfitPickerError::InvalidInput(String::from_str(
                "Category name cannot be empty",
            )));
        }
        if str_is_blank(file_name) {
            return Err(OutfitPickerError::InvalidInput(String::from_str(
                "File name cannot be empty",
            )));
        }
        let outfits = match self.category_outfits(root, excluded_categories, category_name) {
            Err(e) => {
                return Err(e);
            },
            Ok(o) => o,
        };
        match manual_lookup(&outfits, category_name, file_name) {
            Err(e) => Err(e),
            Ok(i) => {
                let outfit = outfits[i].clone();
                let mut cache = match self.cache_repository.load() {
                    Err(e) => {
                        return Err(e);
                    },
                    Ok(c) => c,
                };
                let path = outfit.category_path.clone();
                let picked = record_selection(
                    &mut cache,
                    path.as_str(),
                    outfits.len(),
                    outfit.file_name.as_str(),
                );
                match self.cache_repository.save(&cache) {
                    Err(e) => Err(e),
                    Ok(_) => Ok(OutfitSelection::new(outfit, picked.1, picked.2, picked.0)),
                }
            },
        }
    }

    /// Lists the outfits of the named category.
    fn category_outfits(&self, root: &str, excluded_categories: &Vec<String>, category_name: &str)
        -> (r: Result<Vec<FileEntry>, OutfitPickerError>) {
        let categories = match self.scanner.scan_categories(root, excluded_categories) {
            Err(e) => {
                return Err(e);
            },
            Ok(c) => c,
        };
        match find_category(&categories, category_name) {
            None => Err(OutfitPickerError::CategoryNotFound(category_name.to_owned())),
            Some(i) => self.scanner.scan_outfits(categories[i].category.path.as_str()),
        }
    }
}

/// Resets rotation progress for one or all categories.
pub struct ResetCategoryUseCase<'a, M, S> {
    cache_repository: &'a M,
    scanner: &'a S,
}

impl<'a, M: CacheRepositoryPort, S: CategoryScannerPort> ResetCategoryUseCase<'a, M, S> {
    /// Binds the use case to its backends.
    pub fn new(cache_repository: &'a M, scanner: &'a S) -> (r: ResetCategoryUseCase<'a, M, S>) {
        ResetCategoryUseCase { cache_repository, scanner }
    }

    /// Resets the rotation for one category: its worn set is cleared,
    /// its total kept; a category with no files is left as it is.
    pub fn execute(&self, root: &str, excluded_categories: &Vec<String>, category_name: &str)
        -> (r: Result<(), OutfitPickerError>) {
        let categories = match self.scanner.scan_categories(root, excluded_categories) {
            Err(e) => {
                return Err(e);
            },
            Ok(c) => c,
        };
        let outfits = match find_category(&categories, category_name) {
            None => {
                return Err(OutfitPickerError::CategoryNotFound(category_name.to_owned()));
            },
            Some(i) => {
                match self.scanner.scan_outfits(categories[i].category.path.as_str()) {
                    Err(e) => {
                        return Err(e);
                    },
                    Ok(o) => o,
                }
            },
        };
        if outfits.len() == 0 {
            return Ok(());
        }
        let mut cache = match self.cache_repository.load() {
            Err(e) => {
                return Err(e);
            },
            Ok(c) => c,
        };
        let path = outfits[0].category_path.clone();
        let found = match cache.find_index(path.as_str()) {
            None => {
                return Ok(());
            },
            Some(i) => i,
        };
        cache.reset_at(found);
        self.cache_repository.save(&cache)
    }

    /// Resets every category's rotation in one persisted step.
    pub fn execute_all(&self) -> (r: Result<(), OutfitPickerError>) {
        let mut cache = match self.cache_repository.load() {
            Err(e) => {
                return Err(e);
            },
            Ok(c) => c,
        };
        cache.reset_all();
        self.cache_repository.save(&cache)
    }
}

} // verus!
