//! Path validation for paths accepted at run time, stricter than the
//! domain-level screen: traversal is judged from the path's components,
//! a wider set of system directories is refused, and every control
//! character is rejected, tab included.

use vstd::prelude::*;

use crate::error::{ConfigError, OutfitPickerError};
use crate::text::{
    has_prefix, has_substring, is_blank, is_control_char, str_contains, str_is_blank,
    str_starts_with,
};
use vstd::utf8::encode_utf8;

verus! {

/// Maximum allowed path length, in bytes.
pub const MAX_PATH_LENGTH: usize = 4096;

/// Directory prefixes that are never accepted.
pub open spec fn restricted_roots() -> Seq<Seq<char>> {
    seq![
        "/etc"@,
        "/usr/bin"@,
        "/usr/sbin"@,
        "/bin"@,
        "/sbin"@,
        "/var/log"@,
        "/System"@,
        "/Library"@,
        "/private"@,
        "/root"@,
    ]
}

/// The index of the first slash in `p`, or `-1` when there is none.
pub open spec fn first_slash(p: Seq<char>) -> int
    decreases p.len(),
{
    if p.len() == 0 {
        -1
    } else if p[0] == '/' {
        0
    } else if first_slash(p.skip(1)) < 0 {
        -1
    } else {
        first_slash(p.skip(1)) + 1
    }
}

/// `first_slash` is the smallest position holding a slash, or `-1` when
/// no slash occurs.
pub proof fn lemma_first_slash(p: Seq<char>)
    ensures
        -1 <= first_slash(p) < p.len(),
        first_slash(p) >= 0 ==> p[first_slash(p)] == '/',
        forall|j: int| 0 <= j < first_slash(p) ==> p[j] != '/',
        first_slash(p) == -1 ==> forall|j: int| 0 <= j < p.len() ==> p[j] != '/',
    decreases p.len(),
{
    if p.len() > 0 && p[0] != '/' {
        lemma_first_slash(p.skip(1));
        assert(forall|j: int| 0 <= j < p.len() - 1 ==> p.skip(1)[j] == p[j + 1]);
        let f1 = first_slash(p.skip(1));
        if f1 < 0 {
            assert(first_slash(p) == -1);
            assert forall|j: int| 0 <= j < p.len() implies p[j] != '/' by {
                if j > 0 {
                    assert(p.skip(1)[j - 1] != '/');
                }
            }
        } else {
            assert(first_slash(p) == f1 + 1);
            assert(p[f1 + 1] == p.skip(1)[f1]);
            assert forall|j: int| 0 <= j < f1 + 1 implies p[j] != '/' by {
                if j > 0 {
                    assert(p.skip(1)[j - 1] != '/');
                }
            }
        }
    }
}

/// The slash-separated components of a path.
pub open spec fn split_slash(p: Seq<char>) -> Seq<Seq<char>>
    decreases p.len(),
    via split_slash_decreases
{
    let i = first_slash(p);
    if i < 0 {
        seq![p]
    } else {
        seq![p.subrange(0, i)] + split_slash(p.skip(i + 1))
    }
}

#[via_fn]
proof fn split_slash_decreases(p: Seq<char>) {
    lemma_first_slash(p);
}

/// Whether walking the components ever steps above the starting depth:
/// `..` steps up, `.` and empty components stay, anything else steps
/// down into a directory.
pub open spec fn depth_goes_negative(comps: Seq<Seq<char>>, depth: int) -> bool
    decreases comps.len(),
{
    if comps.len() == 0 {
        false
    } else if comps[0] == ".."@ {
        depth - 1 < 0 || depth_goes_negative(comps.skip(1), depth - 1)
    } else if comps[0] == "."@ || comps[0].len() == 0 {
        depth_goes_negative(comps.skip(1), depth)
    } else {
        depth_goes_negative(comps.skip(1), depth + 1)
    }
}

/// Whether the path attempts traversal: its components escape the root,
/// or it literally contains a slash followed by two dots.
pub open spec fn has_component_traversal(p: Seq<char>) -> bool {
    depth_goes_negative(split_slash(p), 0) || has_substring(p, "/.."@)
}

/// Whether the path lies under one of the restricted prefixes.
pub open spec fn is_restricted(p: Seq<char>) -> bool {
    exists|i: int| 0 <= i < restricted_roots().len() && has_prefix(p, #[trigger] restricted_roots()[i])
}

/// Whether the path contains any control character.
pub open spec fn has_control_char(p: Seq<char>) -> bool {
    exists|i: int| 0 <= i < p.len() && is_control_char(#[trigger] p[i])
}

/// The error a path is rejected with, checked in this order: blank,
/// over-long, traversal, restricted, control characters; `None` when the
/// path is accepted.
pub open spec fn path_error(p: Seq<char>) -> Option<ConfigError> {
    if is_blank(p) {
        Some(ConfigError::EmptyRoot)
    } else if encode_utf8(p).len() > MAX_PATH_LENGTH {
        Some(ConfigError::PathTooLong)
    } else if has_component_traversal(p) {
        Some(ConfigError::PathTraversalNotAllowed)
    } else if is_restricted(p) {
        Some(ConfigError::RestrictedPath)
    } else if has_control_char(p) {
        Some(ConfigError::InvalidCharacters)
    } else {
        None
    }
}

/// Run-time path validation.
pub struct PathValidator;

impl PathValidator {
    /// Validates a path for security issues.
    pub fn validate(path: &str) -> (r: Result<(), OutfitPickerError>)
        ensures
            r is Ok <==> path_error(path@) is None,
            r is Err ==> (path_error(path@) matches Some(e) && r->Err_0
                == OutfitPickerError::Config(e)),
    {
        if str_is_blank(path) {
            return Err(OutfitPickerError::Config(ConfigError::EmptyRoot));
        }
        if path.as_bytes().len() > MAX_PATH_LENGTH {
            return Err(OutfitPickerError::Config(ConfigError::PathTooLong));
        }
        if Self::contains_path_traversal(path) {
            return Err(OutfitPickerError::Config(ConfigError::PathTraversalNotAllowed));
        }
        if Self::is_restricted_path(path) {
            return Err(OutfitPickerError::Config(ConfigError::RestrictedPath));
        }
        if Self::contains_invalid_characters(path) {
            return Err(OutfitPickerError::Config(ConfigError::InvalidCharacters));
        }
        Ok(())
    }

    /// Decides whether the path attempts traversal.
    fn contains_path_traversal(path: &str) -> (r: bool)
        ensures
            r == has_component_traversal(path@),
    {
        let comps = Self::split_on_slash(path);
        let n = comps.len();
        let mut depth: usize = 0;
        let mut i: usize = 0;
        proof {
            assert(crate::models::string_views(comps@).skip(0) =~= crate::models::string_views(
                comps@,
            ));
        }
        loop
            invariant
                i <= n,
                n == comps@.len(),
                crate::models::string_views(comps@) == split_slash(path@),
                depth <= i,
                depth_goes_negative(split_slash(path@), 0) == depth_goes_negative(
                    crate::models::string_views(comps@).skip(i as int),
                    depth as int,
                ),
            decreases n - i,
        {
            if i == n {
                proof {
                    assert(crate::models::string_views(comps@).skip(n as int).len() == 0);
                }
                return str_contains(path, "/..");
            }
            proof {
                assert(crate::models::string_views(comps@).skip(i as int)[0] == comps@[i as int]@);
                assert(crate::models::string_views(comps@).skip(i as int).skip(1)
                    =~= crate::models::string_views(comps@).skip(i + 1));
            }
            if crate::text::str_eq(comps[i].as_str(), "..") {
                if depth == 0 {
                    return true;
                }
                depth = depth - 1;
            } else if crate::text::str_eq(comps[i].as_str(), ".") || comps[i].as_str().is_empty() {
            } else {
                depth = depth + 1;
            }
            i = i + 1;
        }
    }

    /// Splits a path at its slashes.
    fn split_on_slash(path: &str) -> (r: Vec<String>)
        ensures
            crate::models::string_views(r@) == split_slash(path@),
        decreases path@.len(),
    {
        proof {
            lemma_first_slash(path@);
        }
        let n = path.unicode_len();
        let mut i: usize = 0;
        loop
            invariant
                i <= n,
                n == path@.len(),
                forall|j: int| 0 <= j < i ==> path@[j] != '/',
            decreases n - i,
        {
            if i == n {
                proof {
                    lemma_first_slash(path@);
                    assert(first_slash(path@) == -1) by {
                        if first_slash(path@) >= 0 {
                            assert(path@[first_slash(path@)] == '/');
                        }
                    }
                    assert(split_slash(path@) == seq![path@]);
                }
                let whole = path.to_owned();
                let mut out: Vec<String> = Vec::new();
                out.push(whole);
                proof {
                    assert(crate::models::string_views(out@) =~= seq![path@]);
                }
                return out;
            }
            if path.get_char(i) == '/' {
                proof {
                    lemma_first_slash(path@);
                    assert(first_slash(path@) == i as int) by {
                        let f = first_slash(path@);
                        if f >= 0 {
                            assert(path@[f] == '/');
                            assert(forall|j: int| 0 <= j < f ==> path@[j] != '/');
                        }
                    }
                }
                let head = path.substring_char(0, i).to_owned();
                let tail: &str = path.substring_char(i + 1, n);
                let rest = Self::split_on_slash(tail);
                let mut out: Vec<String> = Vec::new();
                out.push(head);
                let mut k: usize = 0;
                let m = rest.len();
                while k < m
                    invariant
                        k <= m,
                        m == rest@.len(),
                        out@.len() == k + 1,
                        out@[0]@ == path@.subrange(0, first_slash(path@)),
                        forall|j: int| 1 <= j <= k ==> #[trigger] out@[j]@ == rest@[j - 1]@,
                    decreases m - k,
                {
                    out.push(rest[k].clone());
                    k = k + 1;
                }
                proof {
                    assert(tail@ =~= path@.skip(i + 1));
                    assert(crate::models::string_views(rest@) == split_slash(path@.skip(
                        i + 1,
                    )));
                    assert(crate::models::string_views(out@) =~= seq![path@.subrange(
                        0,
                        first_slash(path@),
                    )] + split_slash(path@.skip(i + 1)));
                }
                return out;
            }
            i = i + 1;
        }
    }

    /// Decides whether the path lies under a restricted prefix.
    fn is_restricted_path(path: &str) -> (r: bool)
        ensures
            r == is_restricted(path@),
    {
        let prefixes = Self::restricted_path_list();
        let mut i: usize = 0;
        loop
            invariant
                i <= prefixes@.len(),
                prefixes@.len() == restricted_roots().len(),
                forall|j: int| 0 <= j < prefixes@.len() ==> #[trigger] prefixes@[j]@
                    == restricted_roots()[j],
                forall|j: int| 0 <= j < i ==> !has_prefix(path@, #[trigger] restricted_roots()[j]),
            decreases prefixes@.len() - i,
        {
            if i == prefixes.len() {
                return false;
            }
            if str_starts_with(path, prefixes[i]) {
                return true;
            }
            i = i + 1;
        }
    }

    /// Decides whether the path contains a control character.
    fn contains_invalid_characters(path: &str) -> (r: bool)
        ensures
            r == has_control_char(path@),
    {
        let n = path.unicode_len();
        let mut i: usize = 0;
        loop
            invariant
                i <= n,
                n == path@.len(),
                forall|j: int| 0 <= j < i ==> !is_control_char(#[trigger] path@[j]),
            decreases n - i,
        {
            if i == n {
                return false;
            }
            if crate::text::char_is_control(path.get_char(i)) {
                return true;
            }
            i = i + 1;
        }
    }

    /// The maximum allowed path length, in bytes.
    pub fn max_path_length() -> (r: usize)
        ensures
            r == MAX_PATH_LENGTH,
    {
        MAX_PATH_LENGTH
    }

    /// The restricted prefixes, as string slices.
    pub fn restricted_paths() -> (r: Vec<&'static str>)
        ensures
            r@.len() == restricted_roots().len(),
            forall|j: int| 0 <= j < r@.len() ==> #[trigger] r@[j]@ == restricted_roots()[j],
    {
        Self::restricted_path_list()
    }

    /// The restricted prefixes.
    fn restricted_path_list() -> (r: Vec<&'static str>)
        ensures
            r@.len() == restricted_roots().len(),
            forall|j: int| 0 <= j < r@.len() ==> #[trigger] r@[j]@ == restricted_roots()[j],
    {
        let v: Vec<&'static str> = vec![
            "/etc",
            "/usr/bin",
            "/usr/sbin",
            "/bin",
            "/sbin",
            "/var/log",
            "/System",
            "/Library",
            "/private",
            "/root",
        ];
        v
    }
}

} // verus!
