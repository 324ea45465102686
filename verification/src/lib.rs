//! A rotation picker for pools of files grouped into named categories.
//!
//! The library tracks, per category, which files have already been "worn"
//! in the current rotation cycle, selects unworn files at random, resets
//! the cycle on exhaustion, and classifies scanned category directories.
//! All persistence and filesystem enumeration is delegated to narrow ports
//! so that the selection and cache logic here is fully verified.

pub mod cache;
pub mod error;
pub mod menu;
pub mod models;
pub mod path_validator;
pub mod picker;
pub mod ports;
pub mod scanner;
pub mod session;
pub mod sorting;
pub mod text;
pub mod use_cases;
pub mod validation;

pub use cache::{CacheRow, CacheSlot, CategoryCache, OutfitCache};
pub use error::{CacheError, ConfigError, FileSystemError, OutfitPickerError};
pub use models::{
    CategoryInfo, CategoryReference, CategoryState, Config, FileEntry, OutfitSelection,
};
pub use picker::OutfitPickerService;
pub use session::OutfitSession;
pub use use_cases::{
    GetCategoriesUseCase, ResetCategoryUseCase, SelectOutfitUseCase, WearOutfitUseCase,
};
