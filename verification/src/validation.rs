//! Domain-level path validation.
//!
//! Paths offered as the outfit root are screened before any I/O is
//! attempted: blank paths, over-long paths, traversal sequences,
//! restricted system directories and control characters are rejected.

use vstd::prelude::*;
use vstd::utf8::encode_utf8;

use crate::error::{ConfigError, OutfitPickerError};
use crate::text::{
    has_prefix, has_substring, is_blank, is_control_char, str_contains, str_is_blank,
    str_starts_with,
};

verus! {

/// Maximum allowed path length, in bytes.
pub const MAX_PATH_LENGTH: usize = 4096;

/// Directory prefixes that are never accepted as an outfit root.
pub open spec fn restricted_roots() -> Seq<Seq<char>> {
    seq![
        "/bin"@,
        "/sbin"@,
        "/usr/bin"@,
        "/usr/sbin"@,
        "/etc"@,
        "/var/log"@,
        "/System"@,
        "/private/etc"@,
        "/root/.ssh"@,
    ]
}

/// Whether the path lies under one of the restricted prefixes.
pub open spec fn is_restricted(p: Seq<char>) -> bool {
    exists|i: int| 0 <= i < restricted_roots().len() && has_prefix(p, #[trigger] restricted_roots()[i])
}

/// Whether the path contains a traversal sequence.
pub open spec fn has_traversal(p: Seq<char>) -> bool {
    has_substring(p, ".."@) || has_substring(p, "./."@)
}

/// Whether the path contains a control character other than tab.
pub open spec fn has_bad_char(p: Seq<char>) -> bool {
    exists|i: int| 0 <= i < p.len() && is_control_char(#[trigger] p[i]) && p[i] != '\t'
}

/// The error a path is rejected with, checked in this order: blank,
/// over-long, traversal, restricted, control characters; `None` when the
/// path is accepted.
pub open spec fn path_error(p: Seq<char>) -> Option<ConfigError> {
    if is_blank(p) {
        Some(ConfigError::EmptyRoot)
    } else if encode_utf8(p).len() > MAX_PATH_LENGTH {
        Some(ConfigError::PathTooLong)
    } else if has_traversal(p) {
        Some(ConfigError::PathTraversalNotAllowed)
    } else if is_restricted(p) {
        Some(ConfigError::RestrictedPath)
    } else if has_bad_char(p) {
        Some(ConfigError::InvalidCharacters)
    } else {
        None
    }
}

/// Domain-level path validation.
pub struct PathValidation;

impl PathValidation {
    /// Validates a path for use as an outfit directory.
    pub fn validate(path: &str) -> (r: Result<(), OutfitPickerError>)
        ensures
            r is Ok <==> path_error(path@) is None,
            r is Err ==> (path_error(path@) matches Some(e) && r->Err_0
                == OutfitPickerError::Config(e)),
    {
        if str_is_blank(path) {
            return Err(OutfitPickerError::Config(ConfigError::EmptyRoot));
        }
        if path.as_bytes().len() > MAX_PATH_LENGTH {
            return Err(OutfitPickerError::Config(ConfigError::PathTooLong));
        }
        if Self::contains_path_traversal(path) {
            return Err(OutfitPickerError::Config(ConfigError::PathTraversalNotAllowed));
        }
        if Self::is_restricted_path(path) {
            return Err(OutfitPickerError::Config(ConfigError::RestrictedPath));
        }
        if Self::contains_invalid_characters(path) {
            return Err(OutfitPickerError::Config(ConfigError::InvalidCharacters));
        }
        Ok(())
    }

    /// Decides whether the path contains a traversal sequence.
    fn contains_path_traversal(path: &str) -> (r: bool)
        ensures
            r == has_traversal(path@),
    {
        str_contains(path, "..") || str_contains(path, "./.")
    }

    /// Decides whether the path lies under a restricted prefix.
    fn is_restricted_path(path: &str) -> (r: bool)
        ensures
            r == is_restricted(path@),
    {
        let prefixes = Self::restricted_path_list();
        let mut i: usize = 0;
        loop
            invariant
                i <= prefixes@.len(),
                prefixes@.len() == restricted_roots().len(),
                forall|j: int| 0 <= j < prefixes@.len() ==> #[trigger] prefixes@[j]@
                    == restricted_roots()[j],
                forall|j: int| 0 <= j < i ==> !has_prefix(path@, #[trigger] restricted_roots()[j]),
            decreases prefixes@.len() - i,
        {
            if i == prefixes.len() {
                return false;
            }
            if str_starts_with(path, prefixes[i]) {
                return true;
            }
            i = i + 1;
        }
    }

    /// Decides whether the path contains a control character other than tab.
    fn contains_invalid_characters(path: &str) -> (r: bool)
        ensures
            r == has_bad_char(path@),
    {
        let n = path.unicode_len();
        let mut i: usize = 0;
        loop
            invariant
                i <= n,
                n == path@.len(),
                forall|j: int| 0 <= j < i ==> !(is_control_char(#[trigger] path@[j]) && path@[j]
                    != '\t'),
            decreases n - i,
        {
            if i == n {
                return false;
            }
            let c = path.get_char(i);
            if crate::text::char_is_control(c) && c != '\t' {
                return true;
            }
            i = i + 1;
        }
    }

    /// The restricted prefixes, as string slices.
    fn restricted_path_list() -> (r: Vec<&'static str>)
        ensures
            r@.len() == restricted_roots().len(),
            forall|j: int| 0 <= j < r@.len() ==> #[trigger] r@[j]@ == restricted_roots()[j],
    {
        let v: Vec<&'static str> = vec![
            "/bin",
            "/sbin",
            "/usr/bin",
            "/usr/sbin",
            "/etc",
            "/var/log",
            "/System",
            "/private/etc",
            "/root/.ssh",
        ];
        v
    }
}

} // verus!
