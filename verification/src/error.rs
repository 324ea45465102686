//! Error types for the outfit picker library.
//!
//! Lower-level failures (configuration, filesystem, cache decoding) are
//! wrapped into the single top-level `OutfitPickerError` so callers can
//! distinguish error kinds without losing the underlying cause.

use vstd::prelude::*;

verus! {

/// Configuration-related errors.
#[derive(Debug, Clone, PartialEq, Eq)]
pub enum ConfigError {
    EmptyRoot,
    MissingRoot,
    UnsupportedLanguage(String),
    PathTraversalNotAllowed,
    PathTooLong,
    RestrictedPath,
    SymlinkNotAllowed,
    InvalidCharacters,
}

impl ConfigError {
    /// The wording shown to users for each configuration error.
    pub open spec fn message_spec(&self) -> Seq<char> {
        match self {
            ConfigError::EmptyRoot => "root directory cannot be empty"@,
            ConfigError::MissingRoot => "root directory not found"@,
            ConfigError::UnsupportedLanguage(lang) => "unsupported language: "@ + lang@,
            ConfigError::PathTraversalNotAllowed => "path traversal not allowed"@,
            ConfigError::PathTooLong => "path too long (max 4096 characters)"@,
            ConfigError::RestrictedPath => "restricted path"@,
            ConfigError::SymlinkNotAllowed => "symlink not allowed"@,
            ConfigError::InvalidCharacters => "invalid characters in path"@,
        }
    }

    /// Renders the error as the message users see.
    pub fn message(&self) -> (r: String)
        ensures
            r@ == self.message_spec(),
    {
        match self {
            ConfigError::EmptyRoot => String::from_str("root directory cannot be empty"),
            ConfigError::MissingRoot => String::from_str("root directory not found"),
            ConfigError::UnsupportedLanguage(lang) => {
                String::from_str("unsupported language: ").concat(lang.as_str())
            },
            ConfigError::PathTraversalNotAllowed => String::from_str("path traversal not allowed"),
            ConfigError::PathTooLong => String::from_str("path too long (max 4096 characters)"),
            ConfigError::RestrictedPath => String::from_str("restricted path"),
            ConfigError::SymlinkNotAllowed => String::from_str("symlink not allowed"),
            ConfigError::InvalidCharacters => String::from_str("invalid characters in path"),
        }
    }
}

/// File system operation errors.
#[derive(Debug, Clone, PartialEq, Eq)]
pub enum FileSystemError {
    FileNotFound(String),
    DirectoryNotFound(String),
    PermissionDenied(String),
    InvalidPath(String),
    OperationFailed(String),
}

impl FileSystemError {
    /// The wording shown to users for each filesystem error.
    pub open spec fn message_spec(&self) -> Seq<char> {
        match self {
            FileSystemError::FileNotFound(p) => "file not found: "@ + p@,
            FileSystemError::DirectoryNotFound(p) => "directory not found: "@ + p@,
            FileSystemError::PermissionDenied(p) => "permission denied: "@ + p@,
            FileSystemError::InvalidPath(p) => "invalid path: "@ + p@,
            FileSystemError::OperationFailed(p) => "operation failed: "@ + p@,
        }
    }

    /// Renders the error as the message users see.
    pub fn message(&self) -> (r: String)
        ensures
            r@ == self.message_spec(),
    {
        match self {
            FileSystemError::FileNotFound(p) => String::from_str("file not found: ").concat(p.as_str()),
            FileSystemError::DirectoryNotFound(p) => {
                String::from_str("directory not found: ").concat(p.as_str())
            },
            FileSystemError::PermissionDenied(p) => {
                String::from_str("permission denied: ").concat(p.as_str())
            },
            FileSystemError::InvalidPath(p) => String::from_str("invalid path: ").concat(p.as_str()),
            FileSystemError::OperationFailed(p) => {
                String::from_str("operation failed: ").concat(p.as_str())
            },
        }
    }
}

/// Cache-related errors.
#[derive(Debug, Clone, PartialEq, Eq)]
pub enum CacheError {
    EncodingFailed,
    DecodingFailed,
    InvalidData,
}

impl CacheError {
    /// The wording shown to users for each cache error.
    pub open spec fn message_spec(&self) -> Seq<char> {
        match self {
            CacheError::EncodingFailed => "failed to encode cache data"@,
            CacheError::DecodingFailed => "failed to decode cache data"@,
            CacheError::InvalidData => "invalid cache data"@,
        }
    }

    /// Renders the error as the message users see.
    pub fn message(&self) -> (r: String)
        ensures
            r@ == self.message_spec(),
    {
        match self {
            CacheError::EncodingFailed => String::from_str("failed to encode cache data"),
            CacheError::DecodingFailed => String::from_str("failed to decode cache data"),
            CacheError::InvalidData => String::from_str("invalid cache data"),
        }
    }
}

/// Top-level application error.
///
/// Wraps all domain-specific errors into a single type so callers handle
/// one error surface; I/O and serialization failures are carried as their
/// rendered messages.
#[derive(Debug, Clone, PartialEq, Eq)]
pub enum OutfitPickerError {
    Config(ConfigError),
    FileSystem(FileSystemError),
    Cache(CacheError),
    InvalidInput(String),
    NoOutfitsAvailable,
    CategoryNotFound(String),
    Io(String),
    Serialization(String),
}

impl OutfitPickerError {
    /// The wording shown to users for each top-level error.
    pub open spec fn message_spec(&self) -> Seq<char> {
        match self {
            OutfitPickerError::Config(e) => "configuration error: "@ + e.message_spec(),
            OutfitPickerError::FileSystem(e) => "file system error: "@ + e.message_spec(),
            OutfitPickerError::Cache(e) => "cache error: "@ + e.message_spec(),
            OutfitPickerError::InvalidInput(m) => "invalid input: "@ + m@,
            OutfitPickerError::NoOutfitsAvailable => "no outfits available"@,
            OutfitPickerError::CategoryNotFound(c) => "category not found: "@ + c@,
            OutfitPickerError::Io(m) => "io error: "@ + m@,
            OutfitPickerError::Serialization(m) => "serialization error: "@ + m@,
        }
    }

    /// Renders the error as the message users see.
    pub fn message(&self) -> (r: String)
        ensures
            r@ == self.message_spec(),
    {
        match self {
            OutfitPickerError::Config(e) => {
                String::from_str("configuration error: ").concat(e.message().as_str())
            },
            OutfitPickerError::FileSystem(e) => {
                String::from_str("file system error: ").concat(e.message().as_str())
            },
            OutfitPickerError::Cache(e) => {
                String::from_str("cache error: ").concat(e.message().as_str())
            },
            OutfitPickerError::InvalidInput(m) => {
                String::from_str("invalid input: ").concat(m.as_str())
            },
            OutfitPickerError::NoOutfitsAvailable => String::from_str("no outfits available"),
            OutfitPickerError::CategoryNotFound(c) => {
                String::from_str("category not found: ").concat(c.as_str())
            },
            OutfitPickerError::Io(m) => String::from_str("io error: ").concat(m.as_str()),
            OutfitPickerError::Serialization(m) => {
                String::from_str("serialization error: ").concat(m.as_str())
            },
        }
    }
}

impl From<ConfigError> for OutfitPickerError {
    fn from(e: ConfigError) -> (r: OutfitPickerError) {
        OutfitPickerError::Config(e)
    }
}

impl vstd::std_specs::convert::FromSpecImpl<ConfigError> for OutfitPickerError {
    open spec fn obeys_from_spec() -> bool {
        true
    }

    open spec fn from_spec(e: ConfigError) -> OutfitPickerError {
        OutfitPickerError::Config(e)
    }
}

impl From<FileSystemError> for OutfitPickerError {
    fn from(e: FileSystemError) -> (r: OutfitPickerError) {
        OutfitPickerError::FileSystem(e)
    }
}

impl vstd::std_specs::convert::FromSpecImpl<FileSystemError> for OutfitPickerError {
    open spec fn obeys_from_spec() -> bool {
        true
    }

    open spec fn from_spec(e: FileSystemError) -> OutfitPickerError {
        OutfitPickerError::FileSystem(e)
    }
}

impl From<CacheError> for OutfitPickerError {
    fn from(e: CacheError) -> (r: OutfitPickerError) {
        OutfitPickerError::Cache(e)
    }
}

impl vstd::std_specs::convert::FromSpecImpl<CacheError> for OutfitPickerError {
    open spec fn obeys_from_spec() -> bool {
        true
    }

    open spec fn from_spec(e: CacheError) -> OutfitPickerError {
        OutfitPickerError::Cache(e)
    }
}

} // verus!
