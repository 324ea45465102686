//! Core data models: configuration, category descriptions and file entries.

use vstd::prelude::*;

use crate::error::{ConfigError, OutfitPickerError};
use crate::text::{has_suffix, path_file_name, path_file_name_spec, path_parent, path_parent_spec, str_eq, str_ends_with};
use crate::validation::{path_error, PathValidation};

verus! {

/// The file-name suffix that marks a selectable outfit file.
pub open spec fn outfit_suffix() -> Seq<char> {
    ".avatar"@
}

/// The supported language codes.
pub open spec fn supported_language_codes() -> Seq<Seq<char>> {
    seq![
        "en"@, "es"@, "fr"@, "de"@, "pt"@, "it"@, "nl"@, "ru"@, "ja"@, "zh"@,
        "ko"@, "ar"@, "hi"@, "sv"@, "fi"@, "no"@, "da"@, "pl"@, "hu"@, "hr"@,
        "sr"@, "ro"@, "el"@, "tr"@, "bg"@, "lt"@, "lv"@, "et"@, "is"@, "ca"@,
        "mt"@, "sk"@, "cs"@, "uk"@, "sl"@, "bn"@, "vi"@, "th"@, "he"@, "id"@,
        "ta"@, "ms"@, "te"@, "pa"@, "am"@, "ur"@, "gu"@, "sw"@, "zu"@, "af"@,
        "yo"@,
    ]
}

/// Whether `lang` is one of the supported language codes.
pub open spec fn is_supported_lang(lang: Seq<char>) -> bool {
    exists|i: int|
        0 <= i < supported_language_codes().len() && #[trigger] supported_language_codes()[i]
            == lang
}

/// The character sequences of a sequence of strings.
pub open spec fn string_views(vs: Seq<String>) -> Seq<Seq<char>> {
    vs.map_values(|s: String| s@)
}

/// Whether a sequence of strings contains one whose characters are `x`.
pub open spec fn contains_string(vs: Seq<String>, x: Seq<char>) -> bool {
    exists|i: int| 0 <= i < vs.len() && #[trigger] vs[i]@ == x
}

/// `contains_string` over a vector agrees with `contains` over its views.
pub proof fn lemma_contains_string_views(v: Seq<String>, x: Seq<char>)
    ensures
        contains_string(v, x) == string_views(v).contains(x),
{
    if contains_string(v, x) {
        let i = choose|i: int| 0 <= i < v.len() && v[i]@ == x;
        assert(string_views(v)[i] == x);
    }
    if string_views(v).contains(x) {
        let i = choose|i: int| 0 <= i < string_views(v).len() && string_views(v)[i] == x;
        assert(v[i]@ == x);
    }
}

/// A permutation of strings has a permutation of their character
/// sequences.
pub proof fn lemma_string_views_permutation(a: Seq<String>, b: Seq<String>)
    requires
        a.to_multiset() == b.to_multiset(),
    ensures
        string_views(a).to_multiset() == string_views(b).to_multiset(),
    decreases a.len(),
{
    broadcast use vstd::seq_lib::group_to_multiset_ensures;
    broadcast use vstd::multiset::group_multiset_axioms;

    if a.len() == 0 {
        assert(b.to_multiset().len() == 0);
        assert(b.len() == 0);
        assert(string_views(a) =~= string_views(b));
    } else {
        assert(a.to_multiset().len() == a.len());
        assert(b.len() == a.len());
        assert(b.to_multiset().contains(a[0]));
        assert(b.contains(a[0]));
        let k = choose|k: int| 0 <= k < b.len() && b[k] == a[0];
        assert(0 <= k < b.len() && b[k] == a[0]);
        let a1 = a.remove(0);
        let b1 = b.remove(k);
        vstd::seq_lib::to_multiset_remove(a, 0);
        vstd::seq_lib::to_multiset_remove(b, k);
        assert(a1.to_multiset() =~= b1.to_multiset());
        lemma_string_views_permutation(a1, b1);
        assert(string_views(a1) =~= string_views(a).remove(0));
        assert(string_views(b1) =~= string_views(b).remove(k));
        vstd::seq_lib::to_multiset_remove(string_views(a), 0);
        vstd::seq_lib::to_multiset_remove(string_views(b), k);
        assert(string_views(a)[0] == a[0]@);
        assert(string_views(b)[k] == a[0]@);
        assert(string_views(a).contains(string_views(a)[0]));
        assert(string_views(b).contains(string_views(b)[k]));
        assert(string_views(a).to_multiset().count(a[0]@) > 0);
        assert(string_views(b).to_multiset().count(a[0]@) > 0);
        let x = a[0]@;
        let fa = string_views(a).to_multiset();
        let fb = string_views(b).to_multiset();
        assert(fa.remove(x) == fb.remove(x));
        assert forall|e: Seq<char>| fa.count(e) == fb.count(e) by {
            assert(fa.remove(x).count(e) == fb.remove(x).count(e));
        }
        assert(fa =~= fb);
    }
}

/// Decides whether `v` holds a string equal to `x`.
pub fn vec_contains_str(v: &Vec<String>, x: &str) -> (r: bool)
    ensures
        r == contains_string(v@, x@),
{
    let n = v.len();
    let mut i: usize = 0;
    loop
        invariant
            i <= n,
            n == v@.len(),
            forall|j: int| 0 <= j < i ==> #[trigger] v@[j]@ != x@,
        decreases n - i,
    {
        if i == n {
            return false;
        }
        if str_eq(v[i].as_str(), x) {
            return true;
        }
        i = i + 1;
    }
}

/// Clones a vector of strings, preserving each element's characters.
pub fn clone_strings(v: &Vec<String>) -> (r: Vec<String>)
    ensures
        r@.len() == v@.len(),
        forall|i: int| 0 <= i < v@.len() ==> #[trigger] r@[i]@ == v@[i]@,
{
    let n = v.len();
    let mut out: Vec<String> = Vec::new();
    let mut i: usize = 0;
    loop
        invariant
            i <= n,
            n == v@.len(),
            out@.len() == i,
            forall|j: int| 0 <= j < i ==> #[trigger] out@[j]@ == v@[j]@,
        decreases n - i,
    {
        if i == n {
            return out;
        }
        out.push(v[i].clone());
        i = i + 1;
    }
}

/// Clones per-category file lists, preserving the category name and
/// every file name's characters.
pub fn clone_known_files(v: &Vec<(String, Vec<String>)>) -> (r: Vec<(String, Vec<String>)>)
    ensures
        r@.len() == v@.len(),
        forall|i: int| 0 <= i < v@.len() ==> ((#[trigger] r@[i]).0@ == v@[i].0@
            && r@[i].1@.len() == v@[i].1@.len() && (forall|j: int|
            0 <= j < v@[i].1@.len() ==> (#[trigger] r@[i].1@[j])@ == v@[i].1@[j]@)),
{
    let n = v.len();
    let mut out: Vec<(String, Vec<String>)> = Vec::new();
    let mut i: usize = 0;
    loop
        invariant
            i <= n,
            n == v@.len(),
            out@.len() == i,
            forall|k: int| 0 <= k < i ==> ((#[trigger] out@[k]).0@ == v@[k].0@
                && out@[k].1@.len() == v@[k].1@.len() && (forall|j: int|
                0 <= j < v@[k].1@.len() ==> (#[trigger] out@[k].1@[j])@ == v@[k].1@[j]@)),
        decreases n - i,
    {
        if i == n {
            return out;
        }
        let pair = (v[i].0.clone(), clone_strings(&v[i].1));
        out.push(pair);
        i = i + 1;
    }
}

/// Configuration for the outfit picker.
///
/// Holds the root directory for outfit files, an optional language
/// preference, and the categories excluded from selection.
pub struct Config {
    /// Root directory path containing outfit files.
    pub root: String,
    /// Language code for localization.
    pub language: Option<String>,
    /// Categories excluded from outfit selection.
    pub excluded_categories: Vec<String>,
    /// Categories discovered in the filesystem.
    pub known_categories: Vec<String>,
    /// Files tracked per category for change detection.
    pub known_category_files: Vec<(String, Vec<String>)>,
}

impl Config {
    /// Creates and validates a new configuration: the root path must pass
    /// validation and the language, when given, must be supported.
    pub fn new(root: &str, language: Option<String>) -> (r: Result<Config, OutfitPickerError>)
        ensures
            path_error(root@) matches Some(e) ==> (r is Err && r->Err_0
                == OutfitPickerError::Config(e)),
            path_error(root@) is None && (match language {
                Some(l) => !is_supported_lang(l@),
                None => false,
            }) ==> (r is Err && r->Err_0 == OutfitPickerError::Config(
                ConfigError::UnsupportedLanguage(language->0),
            )),
            path_error(root@) is None && (match language {
                Some(l) => is_supported_lang(l@),
                None => true,
            }) ==> (r matches Ok(c) && c.root@ == root@ && c.language == language
                && c.excluded_categories@.len() == 0 && c.known_categories@.len() == 0
                && c.known_category_files@.len() == 0),
    {
        let valid = PathValidation::validate(root);
        match valid {
            Err(e) => Err(e),
            Ok(_) => {
                match language {
                    Some(lang) => {
                        if !Config::is_supported_language(lang.as_str()) {
                            Err(OutfitPickerError::Config(ConfigError::UnsupportedLanguage(lang)))
                        } else {
                            Ok(Config {
                                root: root.to_owned(),
                                language: Some(lang),
                                excluded_categories: Vec::new(),
                                known_categories: Vec::new(),
                                known_category_files: Vec::new(),
                            })
                        }
                    },
                    None => Ok(Config {
                        root: root.to_owned(),
                        language: None,
                        excluded_categories: Vec::new(),
                        known_categories: Vec::new(),
                        known_category_files: Vec::new(),
                    }),
                }
            },
        }
    }

    /// Creates a configuration with an exclusion set already filled in.
    pub fn with_exclusions(root: &str, language: Option<String>, excluded_categories: Vec<String>)
        -> (r: Result<Config, OutfitPickerError>)
        ensures
            path_error(root@) is None && (match language {
                Some(l) => is_supported_lang(l@),
                None => true,
            }) ==> (r matches Ok(c) && c.root@ == root@ && c.language == language
                && c.excluded_categories == excluded_categories && c.known_categories@.len() == 0
                && c.known_category_files@.len() == 0),
            r is Err ==> (path_error(root@) is Some || (language matches Some(l)
                && !is_supported_lang(l@))),
    {
        let base = Config::new(root, language);
        match base {
            Err(e) => Err(e),
            Ok(mut c) => {
                c.excluded_categories = excluded_categories;
                Ok(c)
            },
        }
    }

    /// The default language code.
    pub fn default_language() -> (r: &'static str)
        ensures
            r@ == "en"@,
    {
        "en"
    }

    /// Decides whether a language code is supported.
    pub fn is_supported_language(lang: &str) -> (r: bool)
        ensures
            r == is_supported_lang(lang@),
    {
        let codes = Config::supported_languages();
        let n = codes.len();
        let mut i: usize = 0;
        loop
            invariant
                i <= n,
                n == supported_language_codes().len(),
                codes@.len() == n,
                forall|j: int| 0 <= j < n ==> #[trigger] codes@[j]@ == supported_language_codes()[j],
                forall|j: int| 0 <= j < i ==> #[trigger] supported_language_codes()[j] != lang@,
            decreases n - i,
        {
            if i == n {
                return false;
            }
            if str_eq(codes[i], lang) {
                return true;
            }
            i = i + 1;
        }
    }

    /// All supported language codes.
    pub fn supported_languages() -> (r: Vec<&'static str>)
        ensures
            r@.len() == supported_language_codes().len(),
            forall|j: int| 0 <= j < r@.len() ==> #[trigger] r@[j]@ == supported_language_codes()[j],
    {
        let v: Vec<&'static str> = vec![
            "en", "es", "fr", "de", "pt", "it", "nl", "ru", "ja", "zh",
            "ko", "ar", "hi", "sv", "fi", "no", "da", "pl", "hu", "hr",
            "sr", "ro", "el", "tr", "bg", "lt", "lv", "et", "is", "ca",
            "mt", "sk", "cs", "uk", "sl", "bn", "vi", "th", "he", "id",
            "ta", "ms", "te", "pa", "am", "ur", "gu", "sw", "zu", "af",
            "yo",
        ];
        v
    }
}

impl Clone for Config {
    /// Clones the configuration, preserving every field's characters,
    /// the tracked per-category file lists included.
    fn clone(&self) -> (r: Config)
        ensures
            r.root@ == self.root@,
            r.language is Some <==> self.language is Some,
            self.language is Some ==> r.language->0@ == self.language->0@,
            r.excluded_categories@.len() == self.excluded_categories@.len(),
            forall|i: int| 0 <= i < self.excluded_categories@.len()
                ==> #[trigger] r.excluded_categories@[i]@ == self.excluded_categories@[i]@,
            r.known_categories@.len() == self.known_categories@.len(),
            forall|i: int| 0 <= i < self.known_categories@.len()
                ==> #[trigger] r.known_categories@[i]@ == self.known_categories@[i]@,
            r.known_category_files@.len() == self.known_category_files@.len(),
            forall|i: int| 0 <= i < self.known_category_files@.len()
                ==> ((#[trigger] r.known_category_files@[i]).0@ == self.known_category_files@[i].0@
                && r.known_category_files@[i].1@.len() == self.known_category_files@[i].1@.len()
                && (forall|j: int| 0 <= j < self.known_category_files@[i].1@.len()
                ==> (#[trigger] r.known_category_files@[i].1@[j])@
                == self.known_category_files@[i].1@[j]@)),
    {
        Config {
            root: self.root.clone(),
            language: match &self.language {
                Some(l) => Some(l.clone()),
                None => None,
            },
            excluded_categories: clone_strings(&self.excluded_categories),
            known_categories: clone_strings(&self.known_categories),
            known_category_files: clone_known_files(&self.known_category_files),
        }
    }
}

/// The state of a category directory after a scan.
#[derive(Debug, Clone, Copy, PartialEq, Eq, Structural)]
pub enum CategoryState {
    /// Category contains outfit files that can be used.
    HasOutfits,
    /// Category directory exists but contains no files.
    Empty,
    /// Category contains files but none with the outfit suffix.
    NoAvatarFiles,
    /// Category has been excluded by user configuration.
    UserExcluded,
}

/// Reference to a category by name and path.
#[derive(Debug, Eq, Hash)]
pub struct CategoryReference {
    /// The name of the category (directory name).
    pub name: String,
    /// The full path to the category directory.
    pub path: String,
}

impl CategoryReference {
    /// Builds a reference from a name and a path.
    pub fn new(name: &str, path: &str) -> (r: CategoryReference)
        ensures
            r.name@ == name@,
            r.path@ == path@,
    {
        CategoryReference { name: name.to_owned(), path: path.to_owned() }
    }
}

impl Clone for CategoryReference {
    /// Clones the reference, preserving name and path.
    fn clone(&self) -> (r: CategoryReference)
        ensures
            r.name@ == self.name@,
            r.path@ == self.path@,
    {
        CategoryReference { name: self.name.clone(), path: self.path.clone() }
    }
}

impl PartialEq for CategoryReference {
    fn eq(&self, other: &CategoryReference) -> (r: bool) {
        self.name == other.name && self.path == other.path
    }
}

impl vstd::std_specs::cmp::PartialEqSpecImpl for CategoryReference {
    open spec fn obeys_eq_spec() -> bool {
        true
    }

    open spec fn eq_spec(&self, other: &CategoryReference) -> bool {
        self.name@ == other.name@ && self.path@ == other.path@
    }
}

/// A category together with its scanned state.
#[derive(Debug, Eq)]
pub struct CategoryInfo {
    /// Reference to the category.
    pub category: CategoryReference,
    /// Current state of the category.
    pub state: CategoryState,
    /// Number of outfit files in the category.
    pub outfit_count: usize,
    /// Number of worn outfit files in the category.
    pub worn_count: usize,
}

impl CategoryInfo {
    /// Builds a description with a zero worn count.
    pub fn new(category: CategoryReference, state: CategoryState, outfit_count: usize)
        -> (r: CategoryInfo)
        ensures
            r.category == category,
            r.state == state,
            r.outfit_count == outfit_count,
            r.worn_count == 0,
    {
        CategoryInfo { category, state, outfit_count, worn_count: 0 }
    }

    /// Replaces the worn count.
    pub fn with_worn_count(self, worn_count: usize) -> (r: CategoryInfo)
        ensures
            r.category == self.category,
            r.state == self.state,
            r.outfit_count == self.outfit_count,
            r.worn_count == worn_count,
    {
        CategoryInfo { worn_count, ..self }
    }
}

impl Clone for CategoryInfo {
    /// Clones the description, preserving all fields.
    fn clone(&self) -> (r: CategoryInfo)
        ensures
            r.category.name@ == self.category.name@,
            r.category.path@ == self.category.path@,
            r.state == self.state,
            r.outfit_count == self.outfit_count,
            r.worn_count == self.worn_count,
    {
        CategoryInfo {
            category: self.category.clone(),
            state: self.state,
            outfit_count: self.outfit_count,
            worn_count: self.worn_count,
        }
    }
}

impl PartialEq for CategoryInfo {
    fn eq(&self, other: &CategoryInfo) -> (r: bool) {
        self.category == other.category && self.state == other.state && self.outfit_count
            == other.outfit_count && self.worn_count == other.worn_count
    }
}

impl vstd::std_specs::cmp::PartialEqSpecImpl for CategoryInfo {
    open spec fn obeys_eq_spec() -> bool {
        true
    }

    open spec fn eq_spec(&self, other: &CategoryInfo) -> bool {
        self.category.name@ == other.category.name@ && self.category.path@ == other.category.path@
            && self.state == other.state && self.outfit_count == other.outfit_count
            && self.worn_count == other.worn_count
    }
}

/// An individual outfit file.
#[derive(Debug, Eq)]
pub struct FileEntry {
    /// Full path to the file.
    pub file_path: String,
    /// File name only.
    pub file_name: String,
    /// Category name (parent directory name).
    pub category_name: String,
    /// Category path (parent directory path).
    pub category_path: String,
}

impl FileEntry {
    /// Builds an entry from a file path, deriving the file name and the
    /// owning category's name and path from the path's components:
    /// trailing and doubled slashes are read the way paths are usually
    /// parsed, so a file directly under the root keeps `/` as its
    /// category path.
    pub fn new(file_path: &str) -> (r: FileEntry)
        ensures
            r.file_path@ == file_path@,
            r.file_name@ == path_file_name_spec(file_path@),
            r.category_path@ == path_parent_spec(file_path@),
            r.category_name@ == path_file_name_spec(path_parent_spec(file_path@)),
    {
        let file_name = path_file_name(file_path);
        let category_path = path_parent(file_path);
        let category_name = path_file_name(category_path.as_str());
        FileEntry { file_path: file_path.to_owned(), file_name, category_name, category_path }
    }

    /// Decides whether this entry names an outfit file.
    pub fn is_avatar_file(&self) -> (r: bool)
        ensures
            r == has_suffix(self.file_name@, outfit_suffix()),
    {
        str_ends_with(self.file_name.as_str(), ".avatar")
    }
}

impl Clone for FileEntry {
    /// Clones the entry, preserving all fields.
    fn clone(&self) -> (r: FileEntry)
        ensures
            r.file_path@ == self.file_path@,
            r.file_name@ == self.file_name@,
            r.category_name@ == self.category_name@,
            r.category_path@ == self.category_path@,
    {
        FileEntry {
            file_path: self.file_path.clone(),
            file_name: self.file_name.clone(),
            category_name: self.category_name.clone(),
            category_path: self.category_path.clone(),
        }
    }
}

impl PartialEq for FileEntry {
    fn eq(&self, other: &FileEntry) -> (r: bool) {
        self.file_path == other.file_path && self.file_name == other.file_name
            && self.category_name == other.category_name && self.category_path
            == other.category_path
    }
}

impl vstd::std_specs::cmp::PartialEqSpecImpl for FileEntry {
    open spec fn obeys_eq_spec() -> bool {
        true
    }

    open spec fn eq_spec(&self, other: &FileEntry) -> bool {
        self.file_path@ == other.file_path@ && self.file_name@ == other.file_name@
            && self.category_name@ == other.category_name@ && self.category_path@
            == other.category_path@
    }
}

/// A selected outfit with its rotation context.
///
/// The rotation progress is carried as the worn count over the recorded
/// total; the quotient is left to presentation code.
#[derive(Debug)]
pub struct OutfitSelection {
    /// The selected outfit file entry.
    pub outfit: FileEntry,
    /// Worn count for the category after this selection.
    pub worn_count: usize,
    /// Recorded total for the category.
    pub total_count: usize,
    /// Whether the rotation was reset for this selection.
    pub rotation_was_reset: bool,
}

impl OutfitSelection {
    /// Bundles a selection result.
    pub fn new(outfit: FileEntry, worn_count: usize, total_count: usize, rotation_was_reset: bool)
        -> (r: OutfitSelection)
        ensures
            r.outfit == outfit,
            r.worn_count == worn_count,
            r.total_count == total_count,
            r.rotation_was_reset == rotation_was_reset,
    {
        OutfitSelection { outfit, worn_count, total_count, rotation_was_reset }
    }
}

impl Clone for OutfitSelection {
    /// Clones the selection, preserving all fields.
    fn clone(&self) -> (r: OutfitSelection)
        ensures
            r.outfit.file_path@ == self.outfit.file_path@,
            r.outfit.file_name@ == self.outfit.file_name@,
            r.outfit.category_name@ == self.outfit.category_name@,
            r.outfit.category_path@ == self.outfit.category_path@,
            r.worn_count == self.worn_count,
            r.total_count == self.total_count,
            r.rotation_was_reset == self.rotation_was_reset,
    {
        OutfitSelection {
            outfit: self.outfit.clone(),
            worn_count: self.worn_count,
            total_count: self.total_count,
            rotation_was_reset: self.rotation_was_reset,
        }
    }
}

impl PartialEq for OutfitSelection {
    fn eq(&self, other: &OutfitSelection) -> (r: bool) {
        self.outfit == other.outfit && self.worn_count == other.worn_count && self.total_count
            == other.total_count && self.rotation_was_reset == other.rotation_was_reset
    }
}

impl vstd::std_specs::cmp::PartialEqSpecImpl for OutfitSelection {
    open spec fn obeys_eq_spec() -> bool {
        true
    }

    open spec fn eq_spec(&self, other: &OutfitSelection) -> bool {
        vstd::std_specs::cmp::PartialEqSpec::eq_spec(&self.outfit, &other.outfit)
            && self.worn_count == other.worn_count
            && self.total_count == other.total_count && self.rotation_was_reset
            == other.rotation_was_reset
    }
}

} // verus!
