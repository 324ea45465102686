//! Narrow capability interfaces the selection engine is written against.
//!
//! Concrete backends — the real filesystem scanner and the file-backed
//! stores, or in-memory fakes for tests — implement these. The engine's
//! own logic is verified for every value the ports may return.

use vstd::prelude::*;

use crate::cache::OutfitCache;
use crate::error::OutfitPickerError;
use crate::models::{CategoryInfo, Config, FileEntry};

verus! {

/// The capability to enumerate categories and their outfit files.
pub trait CategoryScannerPort {
    /// Scans the root directory for categories, honouring the exclusion
    /// set, and reports them sorted by name.
    fn scan_categories(&self, root: &str, excluded: &Vec<String>) -> (r: Result<
        Vec<CategoryInfo>,
        OutfitPickerError,
    >);

    /// Lists the outfit files directly inside one category directory,
    /// sorted by file name.
    fn scan_outfits(&self, category_path: &str) -> (r: Result<Vec<FileEntry>, OutfitPickerError>);
}

/// The capability to load, save and delete the persisted rotation cache.
pub trait CacheRepositoryPort {
    /// Loads the cache; a missing backing file yields a fresh empty
    /// cache, not an error. A loaded cache is well-formed: category
    /// paths unique, no worn name repeated.
    fn load(&self) -> (r: Result<OutfitCache, OutfitPickerError>)
        ensures
            r matches Ok(c) ==> c.wf(),
    ;

    /// Saves the cache, replacing what was stored before.
    fn save(&self, cache: &OutfitCache) -> (r: Result<(), OutfitPickerError>);

    /// Deletes the stored cache; deleting a missing cache succeeds.
    fn delete(&self) -> (r: Result<(), OutfitPickerError>);
}

/// The capability to load, save and delete the persisted configuration.
pub trait ConfigRepositoryPort {
    /// Loads the configuration; a missing backing file is an error.
    fn load(&self) -> (r: Result<Config, OutfitPickerError>);

    /// Saves the configuration, replacing what was stored before.
    fn save(&self, config: &Config) -> (r: Result<(), OutfitPickerError>);

    /// Deletes the stored configuration; deleting a missing one succeeds.
    fn delete(&self) -> (r: Result<(), OutfitPickerError>);

    /// Whether a stored configuration is present.
    fn present(&self) -> (r: bool);
}

} // verus!
