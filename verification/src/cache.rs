//! The persisted rotation cache model: per-category worn sets, completion
//! detection and resets.
//!
//! A category entry records the file names already worn in the current
//! rotation cycle and the total recorded when the entry was created or
//! last reset; the cycle is complete once the worn count reaches that
//! total. A reset clears the worn set but keeps the total.

use vstd::prelude::*;

use crate::models::{clone_strings, contains_string, vec_contains_str};

verus! {

/// Relies on chrono's `Utc::now`: seconds of the current time since the
/// Unix epoch. Nothing is assumed of the value. `Utc::now` can panic
/// only when the system clock reads before the Unix epoch; that is an
/// environmental failure, not an input.
#[verifier::external_body]
fn now_timestamp() -> i64 {
    chrono::Utc::now().timestamp()
}

/// The progress numerator reported for a worn count and a recorded
/// total: the worn count clamped to the total, so progress never
/// exceeds one; a zero total counts as fully rotated.
pub open spec fn progress_worn(worn: nat, total: nat) -> nat {
    if total == 0 {
        1
    } else if worn >= total {
        total
    } else {
        worn
    }
}

/// The progress denominator reported for a recorded total; one for a
/// zero total, so an empty category reads as fully rotated.
pub open spec fn progress_total(total: nat) -> nat {
    if total == 0 {
        1
    } else {
        total
    }
}

/// The worn list after marking `name`: unchanged when already present,
/// extended by `name` otherwise.
pub open spec fn worn_after(worn: Seq<Seq<char>>, name: Seq<char>) -> Seq<Seq<char>> {
    if worn.contains(name) {
        worn
    } else {
        worn.push(name)
    }
}

/// The worn list after marking each of `names` in order.
pub open spec fn worn_after_all(worn: Seq<Seq<char>>, names: Seq<Seq<char>>) -> Seq<Seq<char>>
    decreases names.len(),
{
    if names.len() == 0 {
        worn
    } else {
        worn_after_all(worn_after(worn, names[0]), names.skip(1))
    }
}

/// Marking the same file name twice leaves the worn list exactly as after
/// marking it once: marking is idempotent.
pub proof fn lemma_add_worn_idempotent(worn: Seq<Seq<char>>, name: Seq<char>)
    ensures
        worn_after(worn_after(worn, name), name) == worn_after(worn, name),
{
    if !worn.contains(name) {
        assert(worn.push(name)[worn.len() as int] == name);
        assert(worn.push(name).contains(name));
    }
}

/// Marking a fresh name grows the worn count by exactly one, so the
/// rotation progress strictly increases.
pub proof fn lemma_progress_strictly_increases(worn: Seq<Seq<char>>, name: Seq<char>)
    requires
        !worn.contains(name),
    ensures
        worn_after(worn, name).len() == worn.len() + 1,
{
}

/// Marking `k` distinct fresh names one after the other brings the worn
/// count to exactly `k` more than before; starting from an empty worn
/// list, progress after the `k`-th distinct mark is `k` of the total.
pub proof fn lemma_progress_after_marks(worn: Seq<Seq<char>>, names: Seq<Seq<char>>)
    requires
        forall|i: int, j: int| 0 <= i < j < names.len() ==> names[i] != names[j],
        forall|i: int| 0 <= i < names.len() ==> !worn.contains(#[trigger] names[i]),
    ensures
        worn_after_all(worn, names).len() == worn.len() + names.len(),
    decreases names.len(),
{
    if names.len() > 0 {
        let worn1 = worn_after(worn, names[0]);
        assert(worn1 == worn.push(names[0]));
        assert forall|i: int| 0 <= i < names.skip(1).len() implies !worn1.contains(
            #[trigger] names.skip(1)[i],
        ) by {
            let n = names.skip(1)[i];
            assert(n == names[i + 1]);
            assert(!worn.contains(n));
            assert(n != names[0]);
            if worn1.contains(n) {
                let w = choose|w: int| 0 <= w < worn1.len() && worn1[w] == n;
                assert(w < worn.len() ==> worn[w] == n && worn.contains(n));
            }
        }
        lemma_progress_after_marks(worn1, names.skip(1));
    }
}

/// Rotation state for one category: worn file names, the recorded total,
/// and the time of the last change.
pub struct CategoryCache {
    /// Worn outfit file names; no name occurs twice.
    pub worn_outfits: Vec<String>,
    /// Total number of outfits recorded for the category.
    pub total_outfits: usize,
    /// Seconds since the Unix epoch when this entry last changed.
    pub last_updated: i64,
}

impl CategoryCache {
    /// The worn file names as character sequences.
    pub open spec fn worn(&self) -> Seq<Seq<char>> {
        self.worn_outfits@.map_values(|s: String| s@)
    }

    /// Well-formedness: no worn name occurs twice.
    pub open spec fn wf(&self) -> bool {
        forall|i: int, j: int| 0 <= i < j < self.worn().len() ==> self.worn()[i] != self.worn()[j]
    }

    /// Creates an entry with an empty worn set and the given total.
    pub fn new(total_outfits: usize) -> (r: CategoryCache)
        ensures
            r.worn().len() == 0,
            r.total_outfits == total_outfits,
            r.wf(),
    {
        CategoryCache { worn_outfits: Vec::new(), total_outfits, last_updated: now_timestamp() }
    }

    /// Whether the rotation is complete: every recorded outfit was worn.
    pub fn is_rotation_complete(&self) -> (r: bool)
        ensures
            r == (self.worn().len() >= self.total_outfits),
    {
        self.worn_outfits.len() >= self.total_outfits
    }

    /// The rotation progress as a fraction, worn count over total,
    /// clamped so it never exceeds one: with more names worn than the
    /// recorded total — possible while the total stays sticky — full
    /// progress is reported. A zero total counts as fully rotated,
    /// reported as one over one.
    pub fn rotation_progress(&self) -> (r: (usize, usize))
        ensures
            r.0 == progress_worn(self.worn().len(), self.total_outfits as nat),
            r.1 == progress_total(self.total_outfits as nat),
    {
        if self.total_outfits == 0 {
            (1, 1)
        } else if self.worn_outfits.len() >= self.total_outfits {
            (self.total_outfits, self.total_outfits)
        } else {
            (self.worn_outfits.len(), self.total_outfits)
        }
    }

    /// The number of outfits not yet worn this cycle, saturating at zero.
    pub fn remaining_outfits(&self) -> (r: usize)
        ensures
            self.worn().len() >= self.total_outfits ==> r == 0,
            self.worn().len() < self.total_outfits ==> r == self.total_outfits - self.worn().len(),
    {
        if self.worn_outfits.len() >= self.total_outfits {
            0
        } else {
            self.total_outfits - self.worn_outfits.len()
        }
    }

    /// Marks an outfit as worn; inserting a name twice leaves the set
    /// unchanged. Updates the last-updated time.
    pub fn add_worn(&mut self, file_name: &str)
        requires
            old(self).wf(),
        ensures
            final(self).wf(),
            final(self).worn() == worn_after(old(self).worn(), file_name@),
            final(self).total_outfits == old(self).total_outfits,
    {
        proof {
            assert(contains_string(self.worn_outfits@, file_name@) == self.worn().contains(
                file_name@,
            )) by {
                if contains_string(self.worn_outfits@, file_name@) {
                    let i = choose|i: int|
                        0 <= i < self.worn_outfits@.len() && self.worn_outfits@[i]@ == file_name@;
                    assert(self.worn()[i] == file_name@);
                }
                if self.worn().contains(file_name@) {
                    let i = choose|i: int|
                        0 <= i < self.worn().len() && self.worn()[i] == file_name@;
                    assert(self.worn_outfits@[i]@ == file_name@);
                }
            }
        }
        if !vec_contains_str(&self.worn_outfits, file_name) {
            self.worn_outfits.push(file_name.to_owned());
            proof {
                assert(self.worn() =~= old(self).worn().push(file_name@));
            }
        }
        self.last_updated = now_timestamp();
    }

    /// Clears the worn set, keeping the total. Updates the last-updated
    /// time.
    pub fn reset(&mut self)
        ensures
            final(self).worn().len() == 0,
            final(self).total_outfits == old(self).total_outfits,
            final(self).wf(),
    {
        self.worn_outfits = Vec::new();
        self.last_updated = now_timestamp();
    }
}

impl Clone for CategoryCache {
    /// Clones the entry, preserving the worn names, total and time.
    fn clone(&self) -> (r: CategoryCache)
        ensures
            r.worn() == self.worn(),
            r.total_outfits == self.total_outfits,
            r.last_updated == self.last_updated,
    {
        let r = CategoryCache {
            worn_outfits: clone_strings(&self.worn_outfits),
            total_outfits: self.total_outfits,
            last_updated: self.last_updated,
        };
        proof {
            assert(r.worn() =~= self.worn());
        }
        r
    }
}

/// One category's slot in the cache: the category path and its entry.
pub struct CacheSlot {
    /// The category path the entry is keyed by.
    pub path: String,
    /// The rotation state for that category.
    pub entry: CategoryCache,
}

/// Top-level cache: rotation state per category path, with a schema
/// version and creation time.
pub struct OutfitCache {
    /// Cache data per category path.
    pub categories: Vec<CacheSlot>,
    /// Cache version for migration support.
    pub version: u32,
    /// When the cache was created.
    pub created_at: i64,
}

impl OutfitCache {
    /// The category paths in slot order.
    pub open spec fn paths(&self) -> Seq<Seq<char>> {
        self.categories@.map_values(|s: CacheSlot| s.path@)
    }

    /// Whether an entry exists for the given category path.
    pub open spec fn has_path(&self, p: Seq<char>) -> bool {
        self.paths().contains(p)
    }

    /// The slot index of the given category path.
    pub open spec fn index_of(&self, p: Seq<char>) -> int {
        choose|i: int| 0 <= i < self.paths().len() && self.paths()[i] == p
    }

    /// The entry recorded for the given category path.
    pub open spec fn entry_for(&self, p: Seq<char>) -> CategoryCache {
        self.categories@[self.index_of(p)].entry
    }

    /// Well-formedness: paths are unique and every entry is well-formed.
    pub open spec fn wf(&self) -> bool {
        (forall|i: int, j: int|
            0 <= i < j < self.paths().len() ==> self.paths()[i] != self.paths()[j]) && (forall|
            i: int,
        |
            0 <= i < self.categories@.len() ==> (#[trigger] self.categories@[i].entry).wf())
    }

    /// Creates an empty cache at the current schema version.
    pub fn new() -> (r: OutfitCache)
        ensures
            r.categories@.len() == 0,
            r.version == 1,
            r.wf(),
    {
        OutfitCache { categories: Vec::new(), version: 1, created_at: now_timestamp() }
    }

    /// Finds the slot index holding the given category path.
    pub fn find_index(&self, category_path: &str) -> (r: Option<usize>)
        ensures
            r matches Some(i) ==> (i < self.categories@.len() && self.paths()[i as int]
                == category_path@),
            r is None ==> !self.has_path(category_path@),
    {
        let n = self.categories.len();
        let mut i: usize = 0;
        loop
            invariant
                i <= n,
                n == self.categories@.len(),
                forall|j: int| 0 <= j < i ==> self.paths()[j] != category_path@,
            decreases n - i,
        {
            if i == n {
                return None;
            }
            if crate::text::str_eq(self.categories[i].path.as_str(), category_path) {
                return Some(i);
            }
            i = i + 1;
        }
    }

    /// Looks up the entry for a category path.
    pub fn get(&self, category_path: &str) -> (r: Option<&CategoryCache>)
        requires
            self.wf(),
        ensures
            r is Some <==> self.has_path(category_path@),
            r matches Some(e) ==> *e == self.entry_for(category_path@),
    {
        match self.find_index(category_path) {
            None => None,
            Some(i) => {
                proof {
                    assert(self.paths()[i as int] == category_path@);
                    assert(self.has_path(category_path@));
                    assert(self.index_of(category_path@) == i as int) by {
                        let k = self.index_of(category_path@);
                        assert(0 <= k < self.paths().len() && self.paths()[k] == category_path@);
                    }
                }
                Some(&self.categories[i].entry)
            },
        }
    }

    /// Returns the slot index for the category path, creating an entry
    /// with the supplied total when none exists; an existing entry is
    /// returned untouched and the supplied total is ignored.
    pub fn get_or_create(&mut self, category_path: &str, total_outfits: usize) -> (idx: usize)
        requires
            old(self).wf(),
        ensures
            final(self).wf(),
            idx < final(self).categories@.len(),
            final(self).paths()[idx as int] == category_path@,
            final(self).version == old(self).version,
            final(self).created_at == old(self).created_at,
            old(self).has_path(category_path@) ==> (final(self).categories@
                == old(self).categories@ && idx == old(self).index_of(category_path@)),
            !old(self).has_path(category_path@) ==> (final(self).categories@.len()
                == old(self).categories@.len() + 1 && final(self).categories@.subrange(
                0,
                old(self).categories@.len() as int,
            ) == old(self).categories@ && idx == old(self).categories@.len()
                && final(self).categories@[idx as int].entry.worn().len() == 0
                && final(self).categories@[idx as int].entry.total_outfits == total_outfits),
    {
        match self.find_index(category_path) {
            Some(i) => {
                proof {
                    assert(self.has_path(category_path@));
                    assert(self.index_of(category_path@) == i as int) by {
                        let k = self.index_of(category_path@);
                        assert(0 <= k < self.paths().len() && self.paths()[k] == category_path@);
                    }
                }
                i
            },
            None => {
                let idx = self.categories.len();
                let slot = CacheSlot {
                    path: category_path.to_owned(),
                    entry: CategoryCache::new(total_outfits),
                };
                self.categories.push(slot);
                proof {
                    assert(self.categories@.subrange(0, old(self).categories@.len() as int)
                        =~= old(self).categories@);
                    assert(forall|j: int| 0 <= j < old(self).paths().len()
                        ==> self.paths()[j] == old(self).paths()[j]);
                }
                idx
            },
        }
    }

    /// Marks a file name worn in the slot at `idx`.
    pub fn add_worn_at(&mut self, idx: usize, file_name: &str)
        requires
            old(self).wf(),
            idx < old(self).categories@.len(),
        ensures
            final(self).wf(),
            final(self).categories@.len() == old(self).categories@.len(),
            final(self).paths() == old(self).paths(),
            forall|j: int| 0 <= j < old(self).categories@.len() && j != idx
                ==> final(self).categories@[j] == old(self).categories@[j],
            final(self).categories@[idx as int].entry.worn() == worn_after(
                old(self).categories@[idx as int].entry.worn(),
                file_name@,
            ),
            final(self).categories@[idx as int].entry.total_outfits
                == old(self).categories@[idx as int].entry.total_outfits,
            final(self).categories@[idx as int].path@ == old(self).categories@[idx as int].path@,
            final(self).version == old(self).version,
            final(self).created_at == old(self).created_at,
    {
        self.categories[idx].entry.add_worn(file_name);
        proof {
            assert(self.paths() =~= old(self).paths());
        }
    }

    /// Clears the worn set of the slot at `idx`, keeping its total.
    pub fn reset_at(&mut self, idx: usize)
        requires
            old(self).wf(),
            idx < old(self).categories@.len(),
        ensures
            final(self).wf(),
            final(self).categories@.len() == old(self).categories@.len(),
            final(self).paths() == old(self).paths(),
            forall|j: int| 0 <= j < old(self).categories@.len() && j != idx
                ==> final(self).categories@[j] == old(self).categories@[j],
            final(self).categories@[idx as int].entry.worn().len() == 0,
            final(self).categories@[idx as int].entry.total_outfits
                == old(self).categories@[idx as int].entry.total_outfits,
            final(self).categories@[idx as int].path@ == old(self).categories@[idx as int].path@,
            final(self).version == old(self).version,
            final(self).created_at == old(self).created_at,
    {
        self.categories[idx].entry.reset();
        proof {
            assert(self.paths() =~= old(self).paths());
        }
    }

    /// Resets every entry in the cache: all worn sets are cleared, every
    /// total is preserved.
    pub fn reset_all(&mut self)
        requires
            old(self).wf(),
        ensures
            final(self).wf(),
            final(self).categories@.len() == old(self).categories@.len(),
            final(self).paths() == old(self).paths(),
            forall|j: int| 0 <= j < old(self).categories@.len()
                ==> (#[trigger] final(self).categories@[j]).entry.worn().len() == 0,
            forall|j: int| 0 <= j < old(self).categories@.len()
                ==> (#[trigger] final(self).categories@[j]).entry.total_outfits
                == old(self).categories@[j].entry.total_outfits,
            final(self).version == old(self).version,
            final(self).created_at == old(self).created_at,
    {
        let n = self.categories.len();
        let mut i: usize = 0;
        while i < n
            invariant
                i <= n,
                n == self.categories@.len(),
                self.wf(),
                self.categories@.len() == old(self).categories@.len(),
                self.paths() == old(self).paths(),
                forall|j: int| 0 <= j < i ==> (#[trigger] self.categories@[j]).entry.worn().len()
                    == 0,
                forall|j: int| 0 <= j < n ==> (#[trigger] self.categories@[j]).entry.total_outfits
                    == old(self).categories@[j].entry.total_outfits,
                forall|j: int| i <= j < n ==> self.categories@[j]
                    == old(self).categories@[j],
                self.version == old(self).version,
                self.created_at == old(self).created_at,
            decreases n - i,
        {
            self.reset_at(i);
            i = i + 1;
        }
    }

    /// Removes the entry for a category path, when one exists.
    pub fn remove(&mut self, category_path: &str)
        requires
            old(self).wf(),
        ensures
            final(self).wf(),
            !final(self).has_path(category_path@),
            old(self).has_path(category_path@) ==> final(self).categories@
                == old(self).categories@.remove(old(self).index_of(category_path@)),
            !old(self).has_path(category_path@) ==> final(self).categories@
                == old(self).categories@,
            final(self).version == old(self).version,
            final(self).created_at == old(self).created_at,
    {
        match self.find_index(category_path) {
            None => (),
            Some(i) => {
                proof {
                    assert(self.index_of(category_path@) == i as int) by {
                        let k = self.index_of(category_path@);
                        assert(0 <= k < self.paths().len() && self.paths()[k] == category_path@);
                    }
                    assert(self.has_path(category_path@));
                }
                self.categories.remove(i);
                proof {
                    assert(forall|j: int| 0 <= j < self.paths().len()
                        ==> self.paths()[j] == (if j < i as int {
                            old(self).paths()[j]
                        } else {
                            old(self).paths()[j + 1]
                        }));
                    assert(!self.has_path(category_path@)) by {
                        if self.has_path(category_path@) {
                            let k = choose|k: int|
                                0 <= k < self.paths().len() && self.paths()[k]
                                    == category_path@;
                            if k < i as int {
                                assert(old(self).paths()[k] == category_path@);
                            } else {
                                assert(old(self).paths()[k + 1] == category_path@);
                            }
                        }
                    }
                }
            },
        }
    }
}

impl Default for OutfitCache {
    /// The default cache is the fresh empty cache.
    fn default() -> (r: OutfitCache)
        ensures
            r.categories@.len() == 0,
            r.version == 1,
            r.wf(),
    {
        OutfitCache::new()
    }
}

/// One category's persisted form: the plain values a store writes out.
pub struct CacheRow {
    /// The category path the entry is keyed by.
    pub category_path: String,
    /// The worn outfit file names.
    pub worn_outfits: Vec<String>,
    /// The recorded total for the category.
    pub total_outfits: usize,
    /// Seconds since the Unix epoch when the entry last changed.
    pub last_updated: i64,
}

/// Whether the rows carry unique category paths, and no row repeats a
/// worn name.
pub open spec fn rows_wf(rows: Seq<CacheRow>) -> bool {
    (forall|i: int, j: int| 0 <= i < j < rows.len() ==> (#[trigger] rows[i]).category_path@
        != (#[trigger] rows[j]).category_path@) && (forall|k: int|
        0 <= k < rows.len() ==> (forall|i: int, j: int|
            0 <= i < j < (#[trigger] rows[k]).worn_outfits@.len()
                ==> rows[k].worn_outfits@[i]@ != rows[k].worn_outfits@[j]@))
}

impl OutfitCache {
    /// The persisted form of the cache: one row per category, in slot
    /// order, carrying each entry's worn names, total and time.
    pub fn export_rows(&self) -> (r: Vec<CacheRow>)
        requires
            self.wf(),
        ensures
            r@.len() == self.categories@.len(),
            forall|k: int| 0 <= k < r@.len() ==> ((#[trigger] r@[k]).category_path@
                == self.paths()[k] && crate::models::string_views(r@[k].worn_outfits@)
                == self.categories@[k].entry.worn() && r@[k].total_outfits
                == self.categories@[k].entry.total_outfits && r@[k].last_updated
                == self.categories@[k].entry.last_updated),
            rows_wf(r@),
    {
        let n = self.categories.len();
        let mut out: Vec<CacheRow> = Vec::new();
        let mut i: usize = 0;
        while i < n
            invariant
                self.wf(),
                i <= n,
                n == self.categories@.len(),
                out@.len() == i,
                forall|k: int| 0 <= k < i ==> ((#[trigger] out@[k]).category_path@
                    == self.paths()[k] && crate::models::string_views(out@[k].worn_outfits@)
                    == self.categories@[k].entry.worn() && out@[k].total_outfits
                    == self.categories@[k].entry.total_outfits && out@[k].last_updated
                    == self.categories@[k].entry.last_updated),
            decreases n - i,
        {
            let row = CacheRow {
                category_path: self.categories[i].path.clone(),
                worn_outfits: clone_strings(&self.categories[i].entry.worn_outfits),
                total_outfits: self.categories[i].entry.total_outfits,
                last_updated: self.categories[i].entry.last_updated,
            };
            out.push(row);
            proof {
                assert(crate::models::string_views(out@[i as int].worn_outfits@)
                    =~= self.categories@[i as int].entry.worn());
            }
            i = i + 1;
        }
        proof {
            assert(rows_wf(out@)) by {
                assert forall|k: int| 0 <= k < out@.len() implies (forall|p: int, q: int|
                    0 <= p < q < (#[trigger] out@[k]).worn_outfits@.len()
                        ==> out@[k].worn_outfits@[p]@ != out@[k].worn_outfits@[q]@) by {
                    let e = self.categories@[k].entry;
                    assert(e.wf());
                    assert forall|p: int, q: int|
                        0 <= p < q < out@[k].worn_outfits@.len() implies out@[k].worn_outfits@[p]@
                        != out@[k].worn_outfits@[q]@ by {
                        assert(crate::models::string_views(out@[k].worn_outfits@)[p]
                            == out@[k].worn_outfits@[p]@);
                        assert(crate::models::string_views(out@[k].worn_outfits@)[q]
                            == out@[k].worn_outfits@[q]@);
                        assert(e.worn()[p] != e.worn()[q]);
                    }
                }
            }
        }
        out
    }

    /// Rebuilds a cache from its persisted form. Rows repeating an
    /// earlier category path are dropped, repeated worn names within a
    /// row are kept once, so the result is well-formed whatever was
    /// read; well-formed rows — as `export_rows` writes them — are
    /// reproduced exactly, worn sets and totals included.
    pub fn from_rows(version: u32, created_at: i64, rows: Vec<CacheRow>) -> (r: OutfitCache)
        ensures
            r.wf(),
            r.version == version,
            r.created_at == created_at,
            rows_wf(rows@) ==> (r.categories@.len() == rows@.len() && forall|k: int|
                0 <= k < rows@.len() ==> ((#[trigger] r.categories@[k]).path@
                    == rows@[k].category_path@ && r.categories@[k].entry.worn()
                    == crate::models::string_views(rows@[k].worn_outfits@)
                    && r.categories@[k].entry.total_outfits == rows@[k].total_outfits
                    && r.categories@[k].entry.last_updated == rows@[k].last_updated)),
    {
        let ghost rows_view = rows@;
        let n = rows.len();
        let mut cache = OutfitCache { categories: Vec::new(), version, created_at };
        let mut i: usize = 0;
        while i < n
            invariant
                i <= n,
                n == rows@.len(),
                rows@ == rows_view,
                cache.wf(),
                cache.version == version,
                cache.created_at == created_at,
                cache.categories@.len() <= i,
                forall|k: int| 0 <= k < cache.categories@.len() ==> exists|j: int|
                    0 <= j < i && (#[trigger] cache.categories@[k]).path@
                        == rows_view[j].category_path@,
                rows_wf(rows_view) ==> (cache.categories@.len() == i && forall|k: int|
                    0 <= k < i ==> ((#[trigger] cache.categories@[k]).path@
                        == rows_view[k].category_path@ && cache.categories@[k].entry.worn()
                        == crate::models::string_views(rows_view[k].worn_outfits@)
                        && cache.categories@[k].entry.total_outfits == rows_view[k].total_outfits
                        && cache.categories@[k].entry.last_updated
                        == rows_view[k].last_updated)),
            decreases n - i,
        {
            if cache.find_index(rows[i].category_path.as_str()).is_none() {
                let names = dedup_strings(&rows[i].worn_outfits);
                let entry = CategoryCache {
                    worn_outfits: names,
                    total_outfits: rows[i].total_outfits,
                    last_updated: rows[i].last_updated,
                };
                let slot = CacheSlot { path: rows[i].category_path.clone(), entry };
                let ghost prev = cache.categories@;
                cache.categories.push(slot);
                proof {
                    assert(forall|k: int| 0 <= k < prev.len() ==> cache.categories@[k] == prev[k]);
                    assert(cache.paths() =~= prev.map_values(|s: CacheSlot| s.path@).push(
                        rows_view[i as int].category_path@,
                    ));
                    assert(cache.wf()) by {
                        assert forall|p: int, q: int| 0 <= p < q < cache.paths().len() implies
                            cache.paths()[p] != cache.paths()[q] by {
                            if q == cache.paths().len() - 1 {
                                assert(cache.categories@[p].path@ == prev[p].path@);
                            }
                        }
                    }
                    if rows_wf(rows_view) {
                        assert(crate::models::string_views(
                            cache.categories@[i as int].entry.worn_outfits@,
                        ) =~= crate::models::string_views(rows_view[i as int].worn_outfits@));
                    }
                }
            } else {
                proof {
                    if rows_wf(rows_view) {
                        let k = choose|k: int|
                            0 <= k < cache.categories@.len() && cache.paths()[k]
                                == rows_view[i as int].category_path@;
                        assert(cache.categories@[k].path@ == rows_view[k].category_path@);
                        assert(rows_view[k].category_path@ == rows_view[i as int].category_path@);
                        assert(false);
                    }
                }
            }
            i = i + 1;
        }
        cache
    }
}

/// Keeps the first occurrence of each string, dropping repeats.
fn dedup_strings(v: &Vec<String>) -> (r: Vec<String>)
    ensures
        forall|i: int, j: int| 0 <= i < j < r@.len() ==> #[trigger] r@[i]@ != #[trigger] r@[j]@,
        (forall|i: int, j: int| 0 <= i < j < v@.len() ==> #[trigger] v@[i]@ != #[trigger] v@[j]@)
            ==> (r@.len() == v@.len() && forall|i: int| 0 <= i < v@.len() ==> #[trigger] r@[i]@
            == v@[i]@),
{
    let n = v.len();
    let mut out: Vec<String> = Vec::new();
    let mut i: usize = 0;
    while i < n
        invariant
            i <= n,
            n == v@.len(),
            out@.len() <= i,
            forall|p: int, q: int| 0 <= p < q < out@.len() ==> #[trigger] out@[p]@
                != #[trigger] out@[q]@,
            forall|p: int| 0 <= p < out@.len() ==> contains_string(
                v@.subrange(0, i as int),
                (#[trigger] out@[p])@,
            ),
            (forall|p: int, q: int| 0 <= p < q < v@.len() ==> #[trigger] v@[p]@
                != #[trigger] v@[q]@) ==> (out@.len() == i && forall|p: int|
                0 <= p < i ==> #[trigger] out@[p]@ == v@[p]@),
        decreases n - i,
    {
        if !crate::models::vec_contains_str(&out, v[i].as_str()) {
            let ghost prev = out@;
            out.push(v[i].clone());
            proof {
                assert(forall|p: int| 0 <= p < prev.len() ==> out@[p] == prev[p]);
                assert(out@[out@.len() - 1]@ == v@[i as int]@);
                assert forall|p: int| 0 <= p < out@.len() implies contains_string(
                    v@.subrange(0, i + 1),
                    (#[trigger] out@[p])@,
                ) by {
                    if p < prev.len() {
                        let w = choose|w: int|
                            0 <= w < v@.subrange(0, i as int).len() && v@.subrange(
                                0,
                                i as int,
                            )[w]@ == prev[p]@;
                        assert(v@.subrange(0, i + 1)[w]@ == out@[p]@);
                    } else {
                        assert(v@.subrange(0, i + 1)[i as int]@ == out@[p]@);
                    }
                }
            }
        } else {
            proof {
                if forall|p: int, q: int| 0 <= p < q < v@.len() ==> #[trigger] v@[p]@
                    != #[trigger] v@[q]@ {
                    let w = choose|w: int| 0 <= w < out@.len() && out@[w]@ == v@[i as int]@;
                    assert(out@[w]@ == v@[w]@);
                    assert(v@[w]@ == v@[i as int]@);
                    assert(false);
                }
            }
        }
        i = i + 1;
    }
    out
}

/// In a well-formed cache, a slot holding a path is the slot the path
/// is looked up at.
pub proof fn lemma_index_of_is(c: &OutfitCache, p: Seq<char>, i: int)
    requires
        c.wf(),
        0 <= i < c.categories@.len(),
        c.paths()[i] == p,
    ensures
        c.has_path(p),
        c.index_of(p) == i,
{
    assert(c.paths().contains(p));
    let k = c.index_of(p);
    assert(0 <= k < c.paths().len() && c.paths()[k] == p);
}

/// Two well-formed caches with the same paths that agree on every slot
/// but one agree on every other path's entry.
pub proof fn lemma_cache_others_same(a: &OutfitCache, b: &OutfitCache, i: int)
    requires
        a.wf(),
        a.paths() == b.paths(),
        0 <= i < a.categories@.len(),
        b.categories@.len() == a.categories@.len(),
        forall|j: int| 0 <= j < a.categories@.len() && j != i ==> a.categories@[j]
            == b.categories@[j],
    ensures
        forall|q: Seq<char>| q != a.paths()[i] ==> (#[trigger] a.has_path(q) == b.has_path(q) && (
        a.has_path(q) ==> a.entry_for(q) == b.entry_for(q))),
{
    assert forall|q: Seq<char>| q != a.paths()[i] implies (#[trigger] a.has_path(q) == b.has_path(
        q,
    ) && (a.has_path(q) ==> a.entry_for(q) == b.entry_for(q))) by {
        assert(a.has_path(q) == b.has_path(q));
        if a.has_path(q) {
            let k = a.index_of(q);
            assert(0 <= k < a.paths().len() && a.paths()[k] == q);
            let k2 = b.index_of(q);
            assert(0 <= k2 < b.paths().len() && b.paths()[k2] == q);
            assert(k2 == k) by {
                if k2 != k {
                    assert(a.paths()[k2] == q && a.paths()[k] == q);
                }
            }
            assert(k != i);
        }
    }
}

impl Clone for OutfitCache {
    /// Clones the cache, preserving every slot, the version and the
    /// creation time.
    fn clone(&self) -> (r: OutfitCache)
        ensures
            r.categories@.len() == self.categories@.len(),
            forall|i: int| 0 <= i < self.categories@.len()
                ==> (#[trigger] r.categories@[i]).path@ == self.categories@[i].path@
                && r.categories@[i].entry.worn() == self.categories@[i].entry.worn()
                && r.categories@[i].entry.total_outfits == self.categories@[i].entry.total_outfits
                && r.categories@[i].entry.last_updated == self.categories@[i].entry.last_updated,
            r.paths() == self.paths(),
            r.version == self.version,
            r.created_at == self.created_at,
            self.wf() ==> r.wf(),
    {
        let n = self.categories.len();
        let mut out: Vec<CacheSlot> = Vec::new();
        let mut i: usize = 0;
        while i < n
            invariant
                i <= n,
                n == self.categories@.len(),
                out@.len() == i,
                forall|j: int| 0 <= j < i ==> (#[trigger] out@[j]).path@
                    == self.categories@[j].path@ && out@[j].entry.worn()
                    == self.categories@[j].entry.worn() && out@[j].entry.total_outfits
                    == self.categories@[j].entry.total_outfits && out@[j].entry.last_updated
                    == self.categories@[j].entry.last_updated,
            decreases n - i,
        {
            let slot = CacheSlot {
                path: self.categories[i].path.clone(),
                entry: self.categories[i].entry.clone(),
            };
            out.push(slot);
            i = i + 1;
        }
        let r = OutfitCache { categories: out, version: self.version, created_at: self.created_at };
        proof {
            assert(r.paths() =~= self.paths());
        }
        r
    }
}

} // verus!
