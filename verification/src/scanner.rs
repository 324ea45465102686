//! Category scanning logic.
//!
//! Directory enumeration itself is I/O and stays outside the library; the
//! functions here take raw directory listings and do everything else:
//! pick out the eligible category directories, classify each category's
//! state, list its outfit files, and order every result by name.

use vstd::prelude::*;

use crate::models::{
    contains_string, outfit_suffix, string_views, vec_contains_str, CategoryInfo,
    CategoryReference, CategoryState, FileEntry,
};
use crate::text::{path_file_name, path_file_name_spec};
use crate::sorting::{sort_by_key, sorted_by_key, LexKeyed};
use crate::text::{has_prefix, has_suffix, join_path, lex_le, str_ends_with, str_starts_with};

verus! {

/// The file-name suffix that marks a selectable outfit file.
pub const OUTFIT_EXTENSION: &'static str = ".avatar";

/// One entry of a raw directory listing, as the enumeration side reports
/// it: the entry's base name and whether it is a directory or a regular
/// file.
pub struct DirEntryRecord {
    /// The entry's base name.
    pub name: String,
    /// Whether the entry is a directory.
    pub is_dir: bool,
    /// Whether the entry is a regular file.
    pub is_file: bool,
}

/// Whether a listing entry is an outfit file.
pub open spec fn is_avatar_entry(e: DirEntryRecord) -> bool {
    e.is_file && has_suffix(e.name@, outfit_suffix())
}

/// The names of the outfit files in a listing, in listing order.
pub open spec fn avatar_names(s: Seq<DirEntryRecord>) -> Seq<Seq<char>> {
    s.filter(|e: DirEntryRecord| is_avatar_entry(e)).map_values(|e: DirEntryRecord| e.name@)
}

/// Whether a listing holds any regular file at all.
pub open spec fn any_file(s: Seq<DirEntryRecord>) -> bool {
    exists|i: int| 0 <= i < s.len() && (#[trigger] s[i]).is_file
}

/// Whether a listing entry is an eligible category directory: a
/// directory whose name is not dot-prefixed.
pub open spec fn is_category_dir(e: DirEntryRecord) -> bool {
    e.is_dir && !has_prefix(e.name@, "."@)
}

/// The file names of a sequence of outfit entries, in order.
pub open spec fn file_names(s: Seq<FileEntry>) -> Seq<Seq<char>> {
    s.map_values(|e: FileEntry| e.file_name@)
}

impl LexKeyed for FileEntry {
    open spec fn sort_key(&self) -> Seq<char> {
        self.file_name@
    }

    fn key_le(&self, other: &Self) -> (r: bool)
        ensures
            r == lex_le(self.sort_key(), other.sort_key()),
    {
        crate::text::str_le(self.file_name.as_str(), other.file_name.as_str())
    }
}

impl LexKeyed for CategoryInfo {
    open spec fn sort_key(&self) -> Seq<char> {
        self.category.name@
    }

    fn key_le(&self, other: &Self) -> (r: bool)
        ensures
            r == lex_le(self.sort_key(), other.sort_key()),
    {
        crate::text::str_le(self.category.name.as_str(), other.category.name.as_str())
    }
}

/// A permutation of outfit entries has a permutation of their names.
proof fn lemma_file_names_permutation(a: Seq<FileEntry>, b: Seq<FileEntry>)
    requires
        a.to_multiset() == b.to_multiset(),
    ensures
        file_names(a).to_multiset() == file_names(b).to_multiset(),
    decreases a.len(),
{
    broadcast use vstd::seq_lib::group_to_multiset_ensures;
    broadcast use vstd::multiset::group_multiset_axioms;

    if a.len() == 0 {
        assert(b.to_multiset().len() == 0);
        assert(b.len() == 0);
        assert(file_names(a) =~= file_names(b));
    } else {
        assert(a.to_multiset().len() == a.len());
        assert(b.len() == a.len());
        assert(b.to_multiset().contains(a[0]));
        assert(b.contains(a[0]));
        let k = choose|k: int| 0 <= k < b.len() && b[k] == a[0];
        assert(0 <= k < b.len() && b[k] == a[0]);
        let a1 = a.remove(0);
        let b1 = b.remove(k);
        vstd::seq_lib::to_multiset_remove(a, 0);
        vstd::seq_lib::to_multiset_remove(b, k);
        assert(a1.to_multiset() =~= b1.to_multiset());
        lemma_file_names_permutation(a1, b1);
        assert(file_names(a1) =~= file_names(a).remove(0));
        assert(file_names(b1) =~= file_names(b).remove(k));
        vstd::seq_lib::to_multiset_remove(file_names(a), 0);
        vstd::seq_lib::to_multiset_remove(file_names(b), k);
        assert(file_names(a)[0] == a[0].file_name@);
        assert(file_names(b)[k] == a[0].file_name@);
        assert(file_names(a).contains(file_names(a)[0]));
        assert(file_names(b).contains(file_names(b)[k]));
        assert(file_names(a).to_multiset().count(a[0].file_name@) > 0);
        assert(file_names(b).to_multiset().count(a[0].file_name@) > 0);
        let x = a[0].file_name@;
        let fa = file_names(a).to_multiset();
        let fb = file_names(b).to_multiset();
        assert(fa.remove(x) == fb.remove(x));
        assert forall|e: Seq<char>| fa.count(e) == fb.count(e) by {
            assert(fa.remove(x).count(e) == fb.remove(x).count(e));
        }
        assert(fa =~= fb);
    }
}

/// Every value of a permutation satisfies what every value of the
/// original satisfies.
proof fn lemma_permutation_all<T>(a: Seq<T>, b: Seq<T>, p: spec_fn(T) -> bool)
    requires
        a.to_multiset() == b.to_multiset(),
        forall|i: int| 0 <= i < a.len() ==> p(#[trigger] a[i]),
    ensures
        forall|i: int| 0 <= i < b.len() ==> p(#[trigger] b[i]),
{
    broadcast use vstd::seq_lib::group_to_multiset_ensures;

    assert forall|i: int| 0 <= i < b.len() implies p(#[trigger] b[i]) by {
        assert(b.contains(b[i]));
        assert(b.to_multiset().contains(b[i]));
        assert(a.to_multiset().contains(b[i]));
        assert(a.contains(b[i]));
        let j = choose|j: int| 0 <= j < a.len() && a[j] == b[i];
        assert(p(a[j]));
    }
}

/// Scans the file system for categories and outfits, given their raw
/// directory listings.
pub struct CategoryScanner;

impl CategoryScanner {
    /// Decides whether a file name is an outfit file name.
    pub fn is_avatar_file(file_name: &str) -> (r: bool)
        ensures
            r == has_suffix(file_name@, outfit_suffix()),
    {
        str_ends_with(file_name, ".avatar")
    }

    /// Filters a list of file names to the outfit file names, keeping
    /// their order.
    pub fn filter_avatar_files(files: &Vec<String>) -> (r: Vec<String>)
        ensures
            string_views(r@) == string_views(files@).filter(
                |n: Seq<char>| has_suffix(n, outfit_suffix()),
            ),
    {
        let ghost pred = |n: Seq<char>| has_suffix(n, outfit_suffix());
        let n = files.len();
        let mut out: Vec<String> = Vec::new();
        let mut i: usize = 0;
        proof {
            assert(string_views(files@.subrange(0, 0)).filter(pred) =~= Seq::empty());
            assert(string_views(out@) =~= Seq::empty());
        }
        loop
            invariant
                i <= n,
                n == files@.len(),
                string_views(out@) == string_views(files@.subrange(0, i as int)).filter(pred),
                pred == (|n: Seq<char>| has_suffix(n, outfit_suffix())),
            decreases n - i,
        {
            if i == n {
                proof {
                    assert(files@.subrange(0, n as int) =~= files@);
                }
                return out;
            }
            let keep = Self::is_avatar_file(files[i].as_str());
            proof {
                let prefix = string_views(files@.subrange(0, i as int));
                let elem = files@[i as int]@;
                assert(string_views(files@.subrange(0, i + 1)) =~= prefix.push(elem));
                prefix.lemma_filter_push(elem, pred);
            }
            if keep {
                let ghost prev_out = out@;
                out.push(files[i].clone());
                proof {
                    assert(string_views(out@) =~= string_views(prev_out).push(files@[i as int]@));
                }
            }
            i = i + 1;
        }
    }

    /// The names of the eligible category directories in a root listing:
    /// directories only, dot-prefixed names skipped, listing order kept.
    pub fn category_dir_names(entries: &Vec<DirEntryRecord>) -> (r: Vec<String>)
        ensures
            string_views(r@) == entries@.filter(|e: DirEntryRecord| is_category_dir(e)).map_values(
                |e: DirEntryRecord| e.name@,
            ),
    {
        let ghost pred = |e: DirEntryRecord| is_category_dir(e);
        let n = entries.len();
        let mut out: Vec<String> = Vec::new();
        let mut i: usize = 0;
        proof {
            assert(entries@.subrange(0, 0).filter(pred) =~= Seq::empty());
            assert(string_views(out@) =~= Seq::empty());
        }
        loop
            invariant
                i <= n,
                n == entries@.len(),
                string_views(out@) == entries@.subrange(0, i as int).filter(pred).map_values(
                    |e: DirEntryRecord| e.name@,
                ),
                pred == (|e: DirEntryRecord| is_category_dir(e)),
            decreases n - i,
        {
            if i == n {
                proof {
                    assert(entries@.subrange(0, n as int) =~= entries@);
                }
                return out;
            }
            let keep = entries[i].is_dir && !str_starts_with(entries[i].name.as_str(), ".");
            proof {
                let prefix = entries@.subrange(0, i as int);
                let elem = entries@[i as int];
                assert(entries@.subrange(0, i + 1) =~= prefix.push(elem));
                prefix.lemma_filter_push(elem, pred);
                if pred(elem) {
                    assert(prefix.push(elem).filter(pred).map_values(|e: DirEntryRecord| e.name@)
                        =~= prefix.filter(pred).map_values(|e: DirEntryRecord| e.name@).push(
                        elem.name@,
                    ));
                }
            }
            if keep {
                let ghost prev_out = out@;
                out.push(entries[i].name.clone());
                proof {
                    assert(string_views(out@) =~= string_views(prev_out).push(
                        entries@[i as int].name@,
                    ));
                }
            }
            i = i + 1;
        }
    }

    /// Classifies one category from its listing. An excluded category is
    /// always reported `UserExcluded` with a zero count, whatever the
    /// listing holds; otherwise the state reflects whether the listing
    /// holds outfit files, other files only, or nothing.
    pub fn scan_single_category(
        name: &str,
        path: &str,
        excluded_categories: &Vec<String>,
        entries: &Vec<DirEntryRecord>,
    ) -> (r: CategoryInfo)
        ensures
            r.category.name@ == name@,
            r.category.path@ == path@,
            r.worn_count == 0,
            contains_string(excluded_categories@, name@) ==> (r.state
                == CategoryState::UserExcluded && r.outfit_count == 0),
            !contains_string(excluded_categories@, name@) ==> (r.outfit_count == avatar_names(
                entries@,
            ).len() && r.state == (if avatar_names(entries@).len() > 0 {
                CategoryState::HasOutfits
            } else if any_file(entries@) {
                CategoryState::NoAvatarFiles
            } else {
                CategoryState::Empty
            })),
    {
        let category_ref = CategoryReference::new(name, path);
        if vec_contains_str(excluded_categories, name) {
            return CategoryInfo::new(category_ref, CategoryState::UserExcluded, 0);
        }
        let outfit_count = Self::count_avatar_entries(entries);
        let state = if outfit_count > 0 {
            CategoryState::HasOutfits
        } else {
            if Self::has_any_files(entries) {
                CategoryState::NoAvatarFiles
            } else {
                CategoryState::Empty
            }
        };
        CategoryInfo::new(category_ref, state, outfit_count)
    }

    /// Counts the outfit files in a listing.
    fn count_avatar_entries(entries: &Vec<DirEntryRecord>) -> (r: usize)
        ensures
            r == avatar_names(entries@).len(),
    {
        let ghost pred = |e: DirEntryRecord| is_avatar_entry(e);
        let n = entries.len();
        let mut count: usize = 0;
        let mut i: usize = 0;
        proof {
            assert(entries@.subrange(0, 0).filter(pred) =~= Seq::empty());
        }
        loop
            invariant
                i <= n,
                count <= i,
                n == entries@.len(),
                count == entries@.subrange(0, i as int).filter(pred).len(),
                pred == (|e: DirEntryRecord| is_avatar_entry(e)),
            decreases n - i,
        {
            if i == n {
                proof {
                    assert(entries@.subrange(0, n as int) =~= entries@);
                }
                return count;
            }
            let keep = entries[i].is_file && Self::is_avatar_file(entries[i].name.as_str());
            proof {
                let prefix = entries@.subrange(0, i as int);
                let elem = entries@[i as int];
                assert(entries@.subrange(0, i + 1) =~= prefix.push(elem));
                prefix.lemma_filter_push(elem, pred);
            }
            if keep {
                count = count + 1;
            }
            i = i + 1;
        }
    }

    /// Decides whether a listing holds any regular file.
    fn has_any_files(entries: &Vec<DirEntryRecord>) -> (r: bool)
        ensures
            r == any_file(entries@),
    {
        let n = entries.len();
        let mut i: usize = 0;
        loop
            invariant
                i <= n,
                n == entries@.len(),
                forall|j: int| 0 <= j < i ==> !(#[trigger] entries@[j]).is_file,
            decreases n - i,
        {
            if i == n {
                return false;
            }
            if entries[i].is_file {
                return true;
            }
            i = i + 1;
        }
    }

    /// Lists the outfit files of one category from its listing: one entry
    /// per outfit file, carrying the category's path and name, sorted by
    /// file name ascending.
    pub fn scan_outfits(category_path: &str, entries: &Vec<DirEntryRecord>) -> (r: Vec<FileEntry>)
        ensures
            sorted_by_key(r@),
            file_names(r@).to_multiset() == avatar_names(entries@).to_multiset(),
            r@.len() == avatar_names(entries@).len(),
            forall|k: int| 0 <= k < r@.len() ==> ((#[trigger] r@[k]).category_path@
                == category_path@ && r@[k].category_name@ == path_file_name_spec(category_path@)
                && r@[k].file_path@ == category_path@ + "/"@ + r@[k].file_name@),
    {
        let ghost apred = |e: DirEntryRecord| is_avatar_entry(e);
        let ghost okentry = |e: FileEntry| e.category_path@ == category_path@ && e.category_name@
            == path_file_name_spec(category_path@) && e.file_path@ == category_path@ + "/"@
            + e.file_name@;
        let n = entries.len();
        let mut unsorted: Vec<FileEntry> = Vec::new();
        let mut i: usize = 0;
        proof {
            assert(entries@.subrange(0, 0).filter(apred) =~= Seq::empty());
            assert(file_names(unsorted@) =~= Seq::empty());
        }
        while i < n
            invariant
                i <= n,
                n == entries@.len(),
                file_names(unsorted@) == avatar_names(entries@.subrange(0, i as int)),
                forall|k: int| 0 <= k < unsorted@.len() ==> okentry(#[trigger] unsorted@[k]),
                apred == (|e: DirEntryRecord| is_avatar_entry(e)),
                okentry == (|e: FileEntry| e.category_path@ == category_path@ && e.category_name@
                    == path_file_name_spec(category_path@) && e.file_path@ == category_path@ + "/"@
                    + e.file_name@),
            decreases n - i,
        {
            let keep = entries[i].is_file && Self::is_avatar_file(entries[i].name.as_str());
            proof {
                let prefix = entries@.subrange(0, i as int);
                let elem = entries@[i as int];
                assert(entries@.subrange(0, i + 1) =~= prefix.push(elem));
                prefix.lemma_filter_push(elem, apred);
                if apred(elem) {
                    assert(prefix.push(elem).filter(apred).map_values(
                        |e: DirEntryRecord| e.name@,
                    ) =~= avatar_names(prefix).push(elem.name@));
                }
            }
            if keep {
                let file_name = entries[i].name.clone();
                let file_path = join_path(category_path, file_name.as_str());
                let category_name = path_file_name(category_path);
                let entry = FileEntry {
                    file_path,
                    file_name,
                    category_name,
                    category_path: category_path.to_owned(),
                };
                let ghost prev = unsorted@;
                unsorted.push(entry);
                proof {
                    assert(file_names(unsorted@) =~= file_names(prev).push(
                        entries@[i as int].name@,
                    ));
                }
            }
            i = i + 1;
        }
        proof {
            assert(entries@.subrange(0, n as int) =~= entries@);
            assert(file_names(unsorted@) == avatar_names(entries@));
            assert(file_names(unsorted@).len() == unsorted@.len());
        }
        let ghost unsorted_view = unsorted@;
        let r = sort_by_key(unsorted);
        proof {
            lemma_file_names_permutation(unsorted_view, r@);
            lemma_permutation_all(unsorted_view, r@, okentry);
        }
        r
    }

    /// Orders scanned categories by name ascending; the result holds
    /// exactly the given descriptions.
    pub fn sort_categories(categories: Vec<CategoryInfo>) -> (r: Vec<CategoryInfo>)
        ensures
            sorted_by_key(r@),
            r@.to_multiset() == categories@.to_multiset(),
            r@.len() == categories@.len(),
    {
        sort_by_key(categories)
    }

}

} // verus!
