//! Tests for the two path validators: the domain-level screen and the
//! stricter run-time validator.

use outfit_picker::path_validator::PathValidator;
use outfit_picker::validation::{PathValidation, MAX_PATH_LENGTH};

// === Domain-level validation ===

#[test]
fn validation_test_valid_path() {
    assert!(PathValidation::validate("/Users/test/outfits").is_ok());
    assert!(PathValidation::validate("./outfits").is_ok());
    assert!(PathValidation::validate("outfits/casual").is_ok());
}

#[test]
fn validation_test_empty_path() {
    assert!(PathValidation::validate("").is_err());
    assert!(PathValidation::validate("   ").is_err());
}

#[test]
fn validation_test_path_traversal() {
    assert!(PathValidation::validate("/path/../etc").is_err());
    assert!(PathValidation::validate("../secret").is_err());
}

#[test]
fn validation_test_restricted_path() {
    assert!(PathValidation::validate("/etc/passwd").is_err());
    assert!(PathValidation::validate("/bin/bash").is_err());
}

#[test]
fn validation_test_path_too_long() {
    let long_path = "a".repeat(MAX_PATH_LENGTH + 1);
    assert!(PathValidation::validate(&long_path).is_err());
}

#[test]
fn test_valid_long_path() {
    let valid_path = "/".to_string() + &"a".repeat(MAX_PATH_LENGTH - 1);
    assert!(PathValidation::validate(&valid_path).is_ok());
}

// === Run-time validation ===

#[test]
fn test_valid_path() {
    assert!(PathValidator::validate("/home/user/outfits").is_ok());
    assert!(PathValidator::validate("./outfits").is_ok());
    assert!(PathValidator::validate("outfits/casual").is_ok());
}

#[test]
fn test_empty_path() {
    assert!(PathValidator::validate("").is_err());
    assert!(PathValidator::validate("   ").is_err());
}

#[test]
fn test_path_traversal() {
    assert!(PathValidator::validate("../etc/passwd").is_err());
    assert!(PathValidator::validate("/home/../etc").is_err());
    assert!(PathValidator::validate("./../../secret").is_err());
}

#[test]
fn test_restricted_path() {
    assert!(PathValidator::validate("/etc/passwd").is_err());
    assert!(PathValidator::validate("/usr/bin/sudo").is_err());
    assert!(PathValidator::validate("/var/log").is_err());
}

#[test]
fn test_path_too_long() {
    let long_path = "/".to_string() + &"a".repeat(MAX_PATH_LENGTH + 1);
    assert!(PathValidator::validate(&long_path).is_err());
}

#[test]
fn test_path_just_under_limit() {
    let long_path = "/".to_string() + &"a".repeat(MAX_PATH_LENGTH - 2);
    assert!(PathValidator::validate(&long_path).is_ok());
}

#[test]
fn test_control_characters_rejected() {
    assert!(PathValidator::validate("/home/user\x00outfits").is_err());
    assert!(PathValidator::validate("/home/user\noutfits").is_err());
    assert!(PathValidator::validate("/home/user\toutfits").is_err());
}

#[test]
fn test_max_path_length_getter() {
    assert_eq!(PathValidator::max_path_length(), MAX_PATH_LENGTH);
}

#[test]
fn test_restricted_paths_getter() {
    let paths = PathValidator::restricted_paths();
    assert!(paths.contains(&"/etc"));
    assert!(paths.contains(&"/usr/bin"));
}

#[test]
fn test_safe_subdirectory_of_restricted() {
    assert!(PathValidator::validate("/etc/passwd").is_err());
    assert!(PathValidator::validate("/System/Library").is_err());
}

#[test]
fn test_similar_but_not_restricted_path() {
    assert!(PathValidator::validate("/home/user/etc").is_ok());
    assert!(PathValidator::validate("/home/user/Library").is_ok());
}

#[test]
fn test_dot_only_path() {
    assert!(PathValidator::validate(".").is_ok());
}

#[test]
fn test_absolute_vs_relative_paths() {
    assert!(PathValidator::validate("/Users/test/outfits").is_ok());
    assert!(PathValidator::validate("./test/outfits").is_ok());
    assert!(PathValidator::validate("test/outfits").is_ok());
}
