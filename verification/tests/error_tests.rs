//! Tests for error types and error mapping.

use outfit_picker::{CacheError, ConfigError, FileSystemError, OutfitPickerError};

#[test]
fn test_config_error_display() {
    assert_eq!(ConfigError::EmptyRoot.message(), "root directory cannot be empty");
    assert_eq!(ConfigError::MissingRoot.message(), "root directory not found");
    assert_eq!(
        ConfigError::UnsupportedLanguage("xyz".to_string()).message(),
        "unsupported language: xyz"
    );
    assert_eq!(
        ConfigError::PathTraversalNotAllowed.message(),
        "path traversal not allowed"
    );
    assert_eq!(ConfigError::PathTooLong.message(), "path too long (max 4096 characters)");
    assert_eq!(ConfigError::RestrictedPath.message(), "restricted path");
    assert_eq!(ConfigError::SymlinkNotAllowed.message(), "symlink not allowed");
    assert_eq!(ConfigError::InvalidCharacters.message(), "invalid characters in path");
}

#[test]
fn test_config_error_equality() {
    assert_eq!(ConfigError::EmptyRoot, ConfigError::EmptyRoot);
    assert_ne!(ConfigError::EmptyRoot, ConfigError::MissingRoot);
    assert_eq!(
        ConfigError::UnsupportedLanguage("en".to_string()),
        ConfigError::UnsupportedLanguage("en".to_string())
    );
    assert_ne!(
        ConfigError::UnsupportedLanguage("en".to_string()),
        ConfigError::UnsupportedLanguage("fr".to_string())
    );
}

#[test]
fn test_config_error_clone() {
    let err = ConfigError::UnsupportedLanguage("test".to_string());
    let cloned = err.clone();
    assert_eq!(err, cloned);
}

#[test]
fn test_file_system_error_display() {
    assert_eq!(
        FileSystemError::FileNotFound("test.txt".to_string()).message(),
        "file not found: test.txt"
    );
    assert_eq!(
        FileSystemError::DirectoryNotFound("/path".to_string()).message(),
        "directory not found: /path"
    );
    assert_eq!(
        FileSystemError::PermissionDenied("/secret".to_string()).message(),
        "permission denied: /secret"
    );
    assert_eq!(
        FileSystemError::InvalidPath("bad".to_string()).message(),
        "invalid path: bad"
    );
    assert_eq!(
        FileSystemError::OperationFailed("failed".to_string()).message(),
        "operation failed: failed"
    );
}

#[test]
fn test_file_system_error_equality() {
    assert_eq!(
        FileSystemError::FileNotFound("a".to_string()),
        FileSystemError::FileNotFound("a".to_string())
    );
    assert_ne!(
        FileSystemError::FileNotFound("a".to_string()),
        FileSystemError::FileNotFound("b".to_string())
    );
}

#[test]
fn test_cache_error_display() {
    assert_eq!(CacheError::EncodingFailed.message(), "failed to encode cache data");
    assert_eq!(CacheError::DecodingFailed.message(), "failed to decode cache data");
    assert_eq!(CacheError::InvalidData.message(), "invalid cache data");
}

#[test]
fn test_cache_error_equality() {
    assert_eq!(CacheError::EncodingFailed, CacheError::EncodingFailed);
    assert_ne!(CacheError::EncodingFailed, CacheError::DecodingFailed);
}

#[test]
fn test_outfit_picker_error_from_config_error() {
    let config_err = ConfigError::EmptyRoot;
    let picker_err: OutfitPickerError = config_err.into();

    match picker_err {
        OutfitPickerError::Config(ConfigError::EmptyRoot) => {}
        _ => panic!("Expected Config error"),
    }
}

#[test]
fn test_outfit_picker_error_from_file_system_error() {
    let fs_err = FileSystemError::FileNotFound("test".to_string());
    let picker_err: OutfitPickerError = fs_err.into();

    match picker_err {
        OutfitPickerError::FileSystem(FileSystemError::FileNotFound(path)) => {
            assert_eq!(path, "test");
        }
        _ => panic!("Expected FileSystem error"),
    }
}

#[test]
fn test_outfit_picker_error_from_cache_error() {
    let cache_err = CacheError::DecodingFailed;
    let picker_err: OutfitPickerError = cache_err.into();

    match picker_err {
        OutfitPickerError::Cache(CacheError::DecodingFailed) => {}
        _ => panic!("Expected Cache error"),
    }
}

#[test]
fn test_outfit_picker_error_invalid_input() {
    let err = OutfitPickerError::InvalidInput("test message".to_string());
    assert_eq!(err.message(), "invalid input: test message");
}

#[test]
fn test_outfit_picker_error_no_outfits_available() {
    let err = OutfitPickerError::NoOutfitsAvailable;
    assert_eq!(err.message(), "no outfits available");
}

#[test]
fn test_outfit_picker_error_category_not_found() {
    let err = OutfitPickerError::CategoryNotFound("TestCategory".to_string());
    assert_eq!(err.message(), "category not found: TestCategory");
}

#[test]
fn test_question_mark_operator_config_error() {
    fn inner() -> Result<(), OutfitPickerError> {
        Err(ConfigError::EmptyRoot)?
    }

    let result = inner();
    assert!(matches!(result, Err(OutfitPickerError::Config(_))));
}

#[test]
fn test_question_mark_operator_file_system_error() {
    fn inner() -> Result<(), OutfitPickerError> {
        Err(FileSystemError::FileNotFound("test".to_string()))?
    }

    let result = inner();
    assert!(matches!(result, Err(OutfitPickerError::FileSystem(_))));
}

#[test]
fn test_question_mark_operator_cache_error() {
    fn inner() -> Result<(), OutfitPickerError> {
        Err(CacheError::InvalidData)?
    }

    let result = inner();
    assert!(matches!(result, Err(OutfitPickerError::Cache(_))));
}
