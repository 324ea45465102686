//! The selection engine: pick without replacement, reset on exhaustion.
//!
//! The functions in the first half operate on an in-memory cache and a
//! category's current outfit listing and carry the exact rotation
//! semantics; `OutfitPickerService` below orchestrates them against the
//! scanner and store ports.

use vstd::prelude::*;

use crate::cache::{
    lemma_cache_others_same, lemma_index_of_is, progress_total, progress_worn, worn_after,
    OutfitCache,
};
use crate::error::{ConfigError, OutfitPickerError};
use crate::models::{
    contains_string, lemma_contains_string_views, string_views, vec_contains_str, CategoryInfo,
    CategoryState, Config, FileEntry, OutfitSelection,
};
use crate::ports::{CacheRepositoryPort, CategoryScannerPort, ConfigRepositoryPort};
use crate::scanner::file_names;
use crate::text::str_eq;

verus! {

/// Relies on rand's `thread_rng` and `Rng::gen_range`: a uniformly
/// chosen index below `len`. Nothing more is assumed of the value.
#[verifier::external_body]
pub(crate) fn random_index(len: usize) -> (r: usize)
    requires
        len > 0,
    ensures
        r < len,
{
    rand::Rng::gen_range(&mut rand::thread_rng(), 0..len)
}

/// Whether two outfit entries carry the same characters in every field.
pub open spec fn same_entry(a: FileEntry, b: FileEntry) -> bool {
    a.file_path@ == b.file_path@ && a.file_name@ == b.file_name@ && a.category_name@
        == b.category_name@ && a.category_path@ == b.category_path@
}

/// The worn names recorded for a category path; empty when the cache has
/// no entry for it.
pub open spec fn worn_at(c: OutfitCache, p: Seq<char>) -> Seq<Seq<char>> {
    if c.has_path(p) {
        c.entry_for(p).worn()
    } else {
        Seq::empty()
    }
}

/// The total that get-or-create leaves for a category path: the recorded
/// total of an existing entry — the seed is ignored — or the seed for a
/// fresh one.
pub open spec fn total_at(c: OutfitCache, p: Seq<char>, seed: nat) -> nat {
    if c.has_path(p) {
        c.entry_for(p).total_outfits as nat
    } else {
        seed
    }
}

/// Whether a selection against this cache state resets the rotation:
/// the worn count has reached the recorded total.
pub open spec fn resets(c: OutfitCache, p: Seq<char>, seed: nat) -> bool {
    worn_at(c, p).len() >= total_at(c, p, seed)
}

/// The worn set a selection draws against: empty right after a reset,
/// the recorded set otherwise.
pub open spec fn worn_before_pick(c: OutfitCache, p: Seq<char>, seed: nat) -> Seq<Seq<char>> {
    if resets(c, p, seed) {
        Seq::empty()
    } else {
        worn_at(c, p)
    }
}

/// The file names a selection may pick from: listed names not in the
/// worn set.
pub open spec fn candidate_names(outfits: Seq<FileEntry>, worn: Seq<Seq<char>>) -> Seq<Seq<char>> {
    file_names(outfits).filter(|n: Seq<char>| !worn.contains(n))
}

/// Whether every other category path keeps its entry across an update.
pub open spec fn others_unchanged(c0: OutfitCache, c1: OutfitCache, p: Seq<char>) -> bool {
    forall|q: Seq<char>| q != p ==> (#[trigger] c0.has_path(q) == c1.has_path(q) && (c0.has_path(q)
        ==> c0.entry_for(q) == c1.entry_for(q)))
}

/// Exhaustion triggers a reset: once the worn count has reached the
/// recorded total of a category with outfits, the next selection resets
/// the rotation and leaves exactly one worn name — the one just picked —
/// not the total plus one.
pub proof fn lemma_exhaustion_triggers_reset(c: OutfitCache, p: Seq<char>, n: nat, picked: Seq<char>)
    requires
        worn_at(c, p).len() == n,
        total_at(c, p, n) == n,
        n > 0,
    ensures
        resets(c, p, n),
        worn_after(worn_before_pick(c, p, n), picked).len() == 1,
{
    assert(worn_before_pick(c, p, n) =~= Seq::<Seq<char>>::empty());
    assert(!worn_before_pick(c, p, n).contains(picked));
}

/// Finds the first category carrying the given name.
pub fn find_category(categories: &Vec<CategoryInfo>, name: &str) -> (r: Option<usize>)
    ensures
        r matches Some(i) ==> (i < categories@.len() && categories@[i as int].category.name@
            == name@),
        r is None ==> forall|j: int| 0 <= j < categories@.len()
            ==> (#[trigger] categories@[j]).category.name@ != name@,
{
    let n = categories.len();
    let mut i: usize = 0;
    loop
        invariant
            i <= n,
            n == categories@.len(),
            forall|j: int| 0 <= j < i ==> (#[trigger] categories@[j]).category.name@ != name@,
        decreases n - i,
    {
        if i == n {
            return None;
        }
        if str_eq(categories[i].category.name.as_str(), name) {
            return Some(i);
        }
        i = i + 1;
    }
}

/// Decides rotation completion from a status: the category has outfits
/// and every one of them was worn.
pub fn rotation_complete_of(worn: usize, total: usize) -> (r: bool)
    ensures
        r == (total > 0 && worn >= total),
{
    total > 0 && worn >= total
}

/// The cache a best-effort load yields: the loaded cache when the load
/// succeeded, a fresh empty cache when it failed — the caller's listing
/// still succeeds, with no worn information.
pub fn cache_or_empty(loaded: Result<OutfitCache, OutfitPickerError>) -> (c: OutfitCache)
    requires
        loaded matches Ok(c0) ==> c0.wf(),
    ensures
        c.wf(),
        loaded matches Ok(c0) ==> c == c0,
        loaded is Err ==> (c.categories@.len() == 0 && c.version == 1),
{
    match loaded {
        Ok(c) => c,
        Err(_) => OutfitCache::new(),
    }
}

/// Finds the first outfit carrying the given file name.
pub fn find_outfit(outfits: &Vec<FileEntry>, file_name: &str) -> (r: Option<usize>)
    ensures
        r matches Some(i) ==> (i < outfits@.len() && outfits@[i as int].file_name@ == file_name@),
        r is None ==> forall|j: int| 0 <= j < outfits@.len()
            ==> (#[trigger] outfits@[j]).file_name@ != file_name@,
{
    let n = outfits.len();
    let mut i: usize = 0;
    loop
        invariant
            i <= n,
            n == outfits@.len(),
            forall|j: int| 0 <= j < i ==> (#[trigger] outfits@[j]).file_name@ != file_name@,
        decreases n - i,
    {
        if i == n {
            return None;
        }
        if str_eq(outfits[i].file_name.as_str(), file_name) {
            return Some(i);
        }
        i = i + 1;
    }
}

/// Resolves a wear request against the category's current listing: an
/// empty listing, or a name absent from it, is refused with the error
/// the caller returns unchanged.
pub fn wear_lookup(outfits: &Vec<FileEntry>, file_name: &str) -> (r: Result<
    usize,
    OutfitPickerError,
>)
    ensures
        outfits@.len() == 0 ==> (r matches Err(e) && e == OutfitPickerError::NoOutfitsAvailable),
        (outfits@.len() > 0 && !file_names(outfits@).contains(file_name@)) ==> (r matches Err(e)
            && e == OutfitPickerError::NoOutfitsAvailable),
        r is Ok <==> file_names(outfits@).contains(file_name@),
        r matches Ok(i) ==> (i < outfits@.len() && outfits@[i as int].file_name@ == file_name@),
{
    if outfits.len() == 0 {
        proof {
            assert(!file_names(outfits@).contains(file_name@));
        }
        return Err(OutfitPickerError::NoOutfitsAvailable);
    }
    match find_outfit(outfits, file_name) {
        None => {
            proof {
                assert(!file_names(outfits@).contains(file_name@)) by {
                    if file_names(outfits@).contains(file_name@) {
                        let j = choose|j: int|
                            0 <= j < file_names(outfits@).len() && file_names(outfits@)[j]
                                == file_name@;
                        assert(outfits@[j].file_name@ == file_name@);
                    }
                }
            }
            Err(OutfitPickerError::NoOutfitsAvailable)
        },
        Some(i) => {
            proof {
                assert(file_names(outfits@)[i as int] == file_name@);
                assert(file_names(outfits@).contains(file_name@));
            }
            Ok(i)
        },
    }
}

/// Resolves a manual selection against the category's current listing:
/// an empty listing is refused, an absent name is refused with the
/// exact not-found message.
pub fn manual_lookup(outfits: &Vec<FileEntry>, category_name: &str, file_name: &str) -> (r: Result<
    usize,
    OutfitPickerError,
>)
    ensures
        outfits@.len() == 0 ==> (r matches Err(e) && e == OutfitPickerError::NoOutfitsAvailable),
        (outfits@.len() > 0 && !file_names(outfits@).contains(file_name@)) ==> (r matches Err(e)
            && (e matches OutfitPickerError::InvalidInput(m) && m@ == "Outfit '"@ + file_name@
            + "' not found in category '"@ + category_name@ + "'"@)),
        r is Ok <==> file_names(outfits@).contains(file_name@),
        r matches Ok(i) ==> (i < outfits@.len() && outfits@[i as int].file_name@ == file_name@),
{
    if outfits.len() == 0 {
        proof {
            assert(!file_names(outfits@).contains(file_name@));
        }
        return Err(OutfitPickerError::NoOutfitsAvailable);
    }
    match find_outfit(outfits, file_name) {
        None => {
            proof {
                assert(!file_names(outfits@).contains(file_name@)) by {
                    if file_names(outfits@).contains(file_name@) {
                        let j = choose|j: int|
                            0 <= j < file_names(outfits@).len() && file_names(outfits@)[j]
                                == file_name@;
                        assert(outfits@[j].file_name@ == file_name@);
                    }
                }
            }
            let mut msg = String::from_str("Outfit '");
            msg.append(file_name);
            msg.append("' not found in category '");
            msg.append(category_name);
            msg.append("'");
            Err(OutfitPickerError::InvalidInput(msg))
        },
        Some(i) => {
            proof {
                assert(file_names(outfits@)[i as int] == file_name@);
                assert(file_names(outfits@).contains(file_name@));
            }
            Ok(i)
        },
    }
}

/// The indices of the categories that have outfits, in ascending order.
pub fn categories_with_outfits(categories: &Vec<CategoryInfo>) -> (r: Vec<usize>)
    ensures
        forall|k: int, l: int| 0 <= k < l < r@.len() ==> r@[k] < r@[l],
        forall|k: int| 0 <= k < r@.len() ==> ((#[trigger] r@[k]) < categories@.len()
            && categories@[r@[k] as int].state == CategoryState::HasOutfits),
        forall|j: int| 0 <= j < categories@.len() && (#[trigger] categories@[j]).state
            == CategoryState::HasOutfits ==> r@.contains(j as usize),
{
    let n = categories.len();
    let mut out: Vec<usize> = Vec::new();
    let mut i: usize = 0;
    loop
        invariant
            i <= n,
            n == categories@.len(),
            forall|k: int, l: int| 0 <= k < l < out@.len() ==> out@[k] < out@[l],
            forall|k: int| 0 <= k < out@.len() ==> ((#[trigger] out@[k]) < i
                && categories@[out@[k] as int].state == CategoryState::HasOutfits),
            forall|j: int| 0 <= j < i && (#[trigger] categories@[j]).state
                == CategoryState::HasOutfits ==> out@.contains(j as usize),
        decreases n - i,
    {
        if i == n {
            return out;
        }
        if categories[i].state == CategoryState::HasOutfits {
            let ghost prev = out@;
            out.push(i);
            proof {
                assert(out@[out@.len() - 1] == i);
                assert(forall|j: int| 0 <= j < i && (#[trigger] categories@[j]).state
                    == CategoryState::HasOutfits ==> prev.contains(j as usize));
                assert(forall|x: usize| prev.contains(x) ==> out@.contains(x)) by {
                    assert(forall|k: int| 0 <= k < prev.len() ==> out@[k] == prev[k]);
                }
                assert(out@.contains(i as usize));
            }
        }
        i = i + 1;
    }
}

/// Records that a named outfit was selected: gets or creates the
/// category's entry seeded with `seed_total`, resets it when the
/// rotation was complete, marks the name worn, and reports the reset
/// flag with the post-insertion rotation progress, clamped so it never
/// exceeds one.
pub fn record_selection(
    cache: &mut OutfitCache,
    category_path: &str,
    seed_total: usize,
    file_name: &str,
) -> (r: (bool, usize, usize))
    requires
        old(cache).wf(),
    ensures
        final(cache).wf(),
        r.0 == resets(*old(cache), category_path@, seed_total as nat),
        final(cache).has_path(category_path@),
        final(cache).entry_for(category_path@).worn() == worn_after(
            worn_before_pick(*old(cache), category_path@, seed_total as nat),
            file_name@,
        ),
        final(cache).entry_for(category_path@).total_outfits == total_at(
            *old(cache),
            category_path@,
            seed_total as nat,
        ),
        r.1 == progress_worn(
            final(cache).entry_for(category_path@).worn().len(),
            total_at(*old(cache), category_path@, seed_total as nat),
        ),
        r.2 == progress_total(total_at(*old(cache), category_path@, seed_total as nat)),
        r.0 ==> r.1 == 1,
        r.1 >= 1,
        others_unchanged(*old(cache), *final(cache), category_path@),
{
    let ghost c0 = *cache;
    let idx = cache.get_or_create(category_path, seed_total);
    let ghost c1 = *cache;
    proof {
        lemma_index_of_is(cache, category_path@, idx as int);
        if c0.has_path(category_path@) {
            lemma_index_of_is(&c0, category_path@, idx as int);
        }
        assert(cache.categories@[idx as int].entry.worn() == worn_at(c0, category_path@));
        assert(cache.categories@[idx as int].entry.total_outfits == total_at(
            c0,
            category_path@,
            seed_total as nat,
        ));
    }
    let was_complete = cache.categories[idx].entry.is_rotation_complete();
    if was_complete {
        cache.reset_at(idx);
    }
    proof {
        assert(cache.categories@[idx as int].entry.worn() =~= worn_before_pick(
            c0,
            category_path@,
            seed_total as nat,
        ));
    }
    let ghost c2 = *cache;
    cache.add_worn_at(idx, file_name);
    let pair = cache.categories[idx].entry.rotation_progress();
    let worn_count = pair.0;
    let total_count = pair.1;
    proof {
        lemma_index_of_is(cache, category_path@, idx as int);
        assert(cache.entry_for(category_path@) == cache.categories@[idx as int].entry);
        assert(cache.entry_for(category_path@).worn().len() >= 1) by {
            let w1 = worn_before_pick(c0, category_path@, seed_total as nat);
            if w1.contains(file_name@) {
                let i = choose|i: int| 0 <= i < w1.len() && w1[i] == file_name@;
                assert(w1.len() > 0);
            }
        }
        assert(others_unchanged(c0, *cache, category_path@)) by {
            lemma_cache_others_same(&c1, cache, idx as int);
            if c0.has_path(category_path@) {
                lemma_cache_others_same(&c0, cache, idx as int);
            } else {
                assert forall|q: Seq<char>| q != category_path@ implies (#[trigger] c0.has_path(q)
                    == cache.has_path(q) && (c0.has_path(q) ==> c0.entry_for(q)
                    == cache.entry_for(q))) by {
                    assert(c1.paths() =~= c0.paths().push(category_path@));
                    assert(c0.has_path(q) == c1.has_path(q)) by {
                        if c0.has_path(q) {
                            let k = choose|k: int|
                                0 <= k < c0.paths().len() && c0.paths()[k] == q;
                            assert(c1.paths()[k] == q);
                        }
                        if c1.has_path(q) {
                            let k = choose|k: int|
                                0 <= k < c1.paths().len() && c1.paths()[k] == q;
                            assert(k != c0.paths().len());
                            assert(c0.paths()[k] == q);
                        }
                    }
                    if c0.has_path(q) {
                        let k = c0.index_of(q);
                        assert(0 <= k < c0.paths().len() && c0.paths()[k] == q);
                        lemma_index_of_is(&c1, q, k);
                        assert(c1.entry_for(q) == c0.entry_for(q));
                    }
                }
            }
        }
    }
    (was_complete, worn_count, total_count)
}

/// Marks a named outfit worn without evaluating rotation completion:
/// gets or creates the category's entry seeded with `seed_total` and
/// inserts the name into its worn set.
pub fn wear_in_cache(cache: &mut OutfitCache, category_path: &str, seed_total: usize, file_name: &str)
    requires
        old(cache).wf(),
    ensures
        final(cache).wf(),
        final(cache).has_path(category_path@),
        final(cache).entry_for(category_path@).worn() == worn_after(
            worn_at(*old(cache), category_path@),
            file_name@,
        ),
        final(cache).entry_for(category_path@).total_outfits == total_at(
            *old(cache),
            category_path@,
            seed_total as nat,
        ),
        others_unchanged(*old(cache), *final(cache), category_path@),
{
    let ghost c0 = *cache;
    let idx = cache.get_or_create(category_path, seed_total);
    let ghost c1 = *cache;
    proof {
        lemma_index_of_is(cache, category_path@, idx as int);
        if c0.has_path(category_path@) {
            lemma_index_of_is(&c0, category_path@, idx as int);
        }
        assert(cache.categories@[idx as int].entry.worn() =~= worn_at(c0, category_path@));
    }
    cache.add_worn_at(idx, file_name);
    proof {
        lemma_index_of_is(cache, category_path@, idx as int);
        assert(others_unchanged(c0, *cache, category_path@)) by {
            lemma_cache_others_same(&c1, cache, idx as int);
            if c0.has_path(category_path@) {
                lemma_cache_others_same(&c0, cache, idx as int);
            } else {
                assert forall|q: Seq<char>| q != category_path@ implies (#[trigger] c0.has_path(q)
                    == cache.has_path(q) && (c0.has_path(q) ==> c0.entry_for(q)
                    == cache.entry_for(q))) by {
                    assert(c1.paths() =~= c0.paths().push(category_path@));
                    assert(c0.has_path(q) == c1.has_path(q)) by {
                        if c0.has_path(q) {
                            let k = choose|k: int|
                                0 <= k < c0.paths().len() && c0.paths()[k] == q;
                            assert(c1.paths()[k] == q);
                        }
                        if c1.has_path(q) {
                            let k = choose|k: int|
                                0 <= k < c1.paths().len() && c1.paths()[k] == q;
                            assert(k != c0.paths().len());
                            assert(c0.paths()[k] == q);
                        }
                    }
                    if c0.has_path(q) {
                        let k = c0.index_of(q);
                        assert(0 <= k < c0.paths().len() && c0.paths()[k] == q);
                        lemma_index_of_is(&c1, q, k);
                        assert(c1.entry_for(q) == c0.entry_for(q));
                    }
                }
            }
        }
    }
}

/// One random selection step against an in-memory cache, given the
/// category's current outfit listing: get or create the entry keyed by
/// the category path and seeded with the listing's length, reset it when
/// the rotation is complete, choose uniformly among the unworn outfits,
/// mark the choice worn, and report it with the post-insertion progress
/// and the reset flag. With no outfits, or none left to pick, nothing is
/// selected and the cache is left as it was.
pub fn select_outfit_from_listing(
    cache: &mut OutfitCache,
    category_path: &str,
    outfits: &Vec<FileEntry>,
) -> (r: Option<OutfitSelection>)
    requires
        old(cache).wf(),
    ensures
        final(cache).wf(),
        r is None ==> final(cache).categories@ == old(cache).categories@,
        outfits@.len() == 0 ==> r is None,
        outfits@.len() > 0 ==> ((r is Some) == (candidate_names(
            outfits@,
            worn_before_pick(*old(cache), category_path@, outfits@.len() as nat),
        ).len() > 0)),
        r matches Some(sel) ==> ((exists|i: int|
            0 <= i < outfits@.len() && same_entry(sel.outfit, #[trigger] outfits@[i])
                && !worn_before_pick(*old(cache), category_path@, outfits@.len() as nat).contains(
                outfits@[i].file_name@,
            )) && sel.rotation_was_reset == resets(
            *old(cache),
            category_path@,
            outfits@.len() as nat,
        ) && final(cache).has_path(category_path@) && final(cache).entry_for(
            category_path@,
        ).worn() == worn_after(
            worn_before_pick(*old(cache), category_path@, outfits@.len() as nat),
            sel.outfit.file_name@,
        ) && final(cache).entry_for(category_path@).total_outfits == total_at(
            *old(cache),
            category_path@,
            outfits@.len() as nat,
        ) && sel.worn_count == progress_worn(
            final(cache).entry_for(category_path@).worn().len(),
            total_at(*old(cache), category_path@, outfits@.len() as nat),
        ) && sel.total_count == progress_total(
            total_at(*old(cache), category_path@, outfits@.len() as nat),
        ) && (sel.rotation_was_reset ==> sel.worn_count == 1) && sel.worn_count >= 1
            && others_unchanged(*old(cache), *final(cache), category_path@)),
{
    broadcast use vstd::seq_lib::group_filter_ensures;

    if outfits.len() == 0 {
        return None;
    }
    let ghost c0 = *cache;
    let ghost seed = outfits@.len() as nat;
    let ghost w1 = worn_before_pick(c0, category_path@, seed);
    let ghost cpred = |n: Seq<char>| !w1.contains(n);
    let n = outfits.len();
    let mut cand: Vec<usize> = Vec::new();
    match cache.get(category_path) {
        None => {
            proof {
                assert(!resets(c0, category_path@, seed));
                assert(w1 =~= Seq::<Seq<char>>::empty());
            }
            let mut i: usize = 0;
            while i < n
                invariant
                    i <= n,
                    n == outfits@.len(),
                    cand@.len() == i,
                    forall|k: int| 0 <= k < i ==> (#[trigger] cand@[k]) == k,
                    w1.len() == 0,
                decreases n - i,
            {
                cand.push(i);
                i = i + 1;
            }
        },
        Some(e) => {
            let complete = e.worn_outfits.len() >= e.total_outfits;
            proof {
                assert(*e == c0.entry_for(category_path@));
                assert(complete == resets(c0, category_path@, seed));
            }
            if complete {
                proof {
                    assert(w1 =~= Seq::<Seq<char>>::empty());
                }
                let mut i: usize = 0;
                while i < n
                    invariant
                        i <= n,
                        n == outfits@.len(),
                        cand@.len() == i,
                        forall|k: int| 0 <= k < i ==> (#[trigger] cand@[k]) == k,
                        w1.len() == 0,
                    decreases n - i,
                {
                    cand.push(i);
                    i = i + 1;
                }
            } else {
                proof {
                    assert(w1 == e.worn());
                    assert(e.worn() =~= string_views(e.worn_outfits@));
                }
                let mut i: usize = 0;
                while i < n
                    invariant
                        i <= n,
                        n == outfits@.len(),
                        w1 == string_views(e.worn_outfits@),
                        forall|k: int, l: int| 0 <= k < l < cand@.len() ==> cand@[k] < cand@[l],
                        forall|k: int| 0 <= k < cand@.len() ==> ((#[trigger] cand@[k]) < i
                            && !w1.contains(outfits@[cand@[k] as int].file_name@)),
                        forall|j: int| 0 <= j < i && !w1.contains(
                            (#[trigger] outfits@[j]).file_name@,
                        ) ==> cand@.contains(j as usize),
                    decreases n - i,
                {
                    proof {
                        lemma_contains_string_views(e.worn_outfits@, outfits@[i as int].file_name@);
                    }
                    if !vec_contains_str(&e.worn_outfits, outfits[i].file_name.as_str()) {
                        let ghost prev = cand@;
                        cand.push(i);
                        proof {
                            assert(forall|x: usize| prev.contains(x) ==> cand@.contains(x)) by {
                                assert(forall|k: int| 0 <= k < prev.len() ==> cand@[k] == prev[k]);
                            }
                            assert(cand@[cand@.len() - 1] == i);
                            assert(cand@.contains(i as usize));
                        }
                    }
                    i = i + 1;
                }
            }
        },
    }
    proof {
        if cand@.len() > 0 {
            let i0 = cand@[0] as int;
            assert(!w1.contains(file_names(outfits@)[i0]));
            file_names(outfits@).lemma_filter_contains(cpred, i0);
            assert(candidate_names(outfits@, w1).len() > 0);
        } else {
            if candidate_names(outfits@, w1).len() > 0 {
                let elem = candidate_names(outfits@, w1)[0];
                file_names(outfits@).lemma_filter_pred(cpred, 0);
                file_names(outfits@).lemma_filter_contains_rev(cpred, elem);
                assert(file_names(outfits@).contains(elem));
                let j = choose|j: int|
                    0 <= j < file_names(outfits@).len() && file_names(outfits@)[j] == elem;
                assert(!w1.contains(outfits@[j].file_name@));
                if w1.len() == 0 {
                    assert(cand@.len() == outfits@.len());
                } else {
                    assert(cand@.contains(j as usize));
                }
                assert(false);
            }
        }
    }
    if cand.len() == 0 {
        return None;
    }
    let k = random_index(cand.len());
    let oi = cand[k];
    let sel_outfit = outfits[oi].clone();
    let picked = record_selection(cache, category_path, outfits.len(), sel_outfit.file_name.as_str());
    proof {
        assert(same_entry(sel_outfit, outfits@[oi as int]));
        assert(!w1.contains(outfits@[oi as int].file_name@));
    }
    Some(OutfitSelection::new(sel_outfit, picked.1, picked.2, picked.0))
}

/// The rotation status derived from a category's listing and the cache:
/// worn count and live total, both zero for an empty category.
pub fn rotation_status_of(outfits: &Vec<FileEntry>, cache: &OutfitCache) -> (r: (usize, usize))
    requires
        cache.wf(),
    ensures
        outfits@.len() == 0 ==> r.0 == 0 && r.1 == 0,
        outfits@.len() > 0 ==> (r.0 == worn_at(*cache, outfits@[0].category_path@).len() && r.1
            == outfits@.len()),
{
    if outfits.len() == 0 {
        return (0, 0);
    }
    let worn: usize = match cache.get(outfits[0].category_path.as_str()) {
        Some(e) => e.worn_outfits.len(),
        None => 0,
    };
    (worn, outfits.len())
}

/// Keeps the outfits whose worn-set membership for the given category
/// path matches `keep_worn`: the worn outfits, or the unworn ones.
pub fn filter_by_worn(
    outfits: Vec<FileEntry>,
    cache: &OutfitCache,
    category_path: &str,
    keep_worn: bool,
) -> (r: Vec<FileEntry>)
    requires
        cache.wf(),
    ensures
        r@ == outfits@.filter(
            |e: FileEntry| worn_at(*cache, category_path@).contains(e.file_name@) == keep_worn,
        ),
{
    let ghost pred = |e: FileEntry| worn_at(*cache, category_path@).contains(e.file_name@)
        == keep_worn;
    let ghost orig = outfits@;
    let mut rest = outfits;
    let total_n = rest.len();
    let mut out: Vec<FileEntry> = Vec::new();
    let mut i: usize = 0;
    proof {
        assert(orig.subrange(0, 0).filter(pred) =~= Seq::empty());
        assert(rest@ =~= orig.subrange(0, orig.len() as int));
    }
    loop
        invariant
            cache.wf(),
            orig == outfits@,
            i <= orig.len(),
            orig.len() == total_n,
            rest@ == orig.subrange(i as int, orig.len() as int),
            out@ == orig.subrange(0, i as int).filter(pred),
            pred == (|e: FileEntry| worn_at(*cache, category_path@).contains(e.file_name@)
                == keep_worn),
        decreases orig.len() - i,
    {
        if rest.len() == 0 {
            proof {
                assert(i == orig.len());
                assert(orig.subrange(0, orig.len() as int) =~= orig);
                assert(out@ =~= orig.filter(pred));
            }
            return out;
        }
        let ghost rest0 = rest@;
        let x = rest.remove(0);
        proof {
            assert(x == orig[i as int]);
            assert(rest@ =~= orig.subrange(i + 1, orig.len() as int));
        }
        let is_worn: bool = match cache.get(category_path) {
            Some(e) => {
                proof {
                    lemma_contains_string_views(e.worn_outfits@, x.file_name@);
                    assert(e.worn() =~= string_views(e.worn_outfits@));
                }
                vec_contains_str(&e.worn_outfits, x.file_name.as_str())
            },
            None => false,
        };
        proof {
            let prefix = orig.subrange(0, i as int);
            assert(orig.subrange(0, i + 1) =~= prefix.push(orig[i as int]));
            prefix.lemma_filter_push(orig[i as int], pred);
        }
        if is_worn == keep_worn {
            out.push(x);
        }
        i = i + 1;
    }
}

/// Fills each scanned category's worn count from the cache entry stored
/// for its path; categories without an entry keep a zero count.
pub fn merge_worn_counts(categories: Vec<CategoryInfo>, cache: &OutfitCache) -> (r: Vec<
    CategoryInfo,
>)
    requires
        cache.wf(),
    ensures
        r@.len() == categories@.len(),
        forall|k: int| 0 <= k < categories@.len() ==> ((#[trigger] r@[k]).category.name@
            == categories@[k].category.name@ && r@[k].category.path@
            == categories@[k].category.path@ && r@[k].state == categories@[k].state
            && r@[k].outfit_count == categories@[k].outfit_count && r@[k].worn_count == worn_at(
            *cache,
            categories@[k].category.path@,
        ).len()),
{
    let n = categories.len();
    let mut out: Vec<CategoryInfo> = Vec::new();
    let mut i: usize = 0;
    while i < n
        invariant
            cache.wf(),
            i <= n,
            n == categories@.len(),
            out@.len() == i,
            forall|k: int| 0 <= k < i ==> ((#[trigger] out@[k]).category.name@
                == categories@[k].category.name@ && out@[k].category.path@
                == categories@[k].category.path@ && out@[k].state == categories@[k].state
                && out@[k].outfit_count == categories@[k].outfit_count && out@[k].worn_count
                == worn_at(*cache, categories@[k].category.path@).len()),
        decreases n - i,
    {
        let worn: usize = match cache.get(categories[i].category.path.as_str()) {
            Some(e) => e.worn_outfits.len(),
            None => 0,
        };
        let info = CategoryInfo {
            category: categories[i].category.clone(),
            state: categories[i].state,
            outfit_count: categories[i].outfit_count,
            worn_count: worn,
        };
        out.push(info);
        i = i + 1;
    }
    out
}

impl crate::sorting::LexKeyed for (String, Vec<String>) {
    open spec fn sort_key(&self) -> Seq<char> {
        self.0@
    }

    fn key_le(&self, other: &Self) -> (r: bool)
        ensures
            r == crate::text::lex_le(self.sort_key(), other.sort_key()),
    {
        crate::text::str_le(self.0.as_str(), other.0.as_str())
    }
}

/// Whether a listing pair reports one of the cache's categories with a
/// non-empty worn set: its path, and its worn names sorted.
pub open spec fn good_worn_pair(c: OutfitCache, p: (String, Vec<String>)) -> bool {
    exists|i: int|
        0 <= i < c.categories@.len() && p.0@ == c.paths()[i] && c.categories@[i].entry.worn().len()
            > 0 && string_views(p.1@).to_multiset() == c.categories@[i].entry.worn().to_multiset()
            && crate::sorting::sorted_by_key(p.1@)
}

/// The worn outfits of every category that has any, as pairs of category
/// path and sorted worn names, ordered by path.
#[verifier::rlimit(60)]
pub fn worn_listing(cache: &OutfitCache) -> (r: Vec<(String, Vec<String>)>)
    requires
        cache.wf(),
    ensures
        crate::sorting::sorted_by_key(r@),
        forall|k: int| 0 <= k < r@.len() ==> good_worn_pair(*cache, #[trigger] r@[k]),
        forall|k: int, l: int| 0 <= k < l < r@.len() ==> (#[trigger] r@[k].0@)
            != (#[trigger] r@[l].0@),
        forall|i: int| 0 <= i < cache.categories@.len() && (#[trigger] cache.categories@[i]).entry.worn().len()
            > 0 ==> (exists|k: int| 0 <= k < r@.len() && (#[trigger] r@[k].0@)
            == cache.paths()[i]),
{
    let ghost goodpair = |p: (String, Vec<String>)| good_worn_pair(*cache, p);
    let n = cache.categories.len();
    let mut built: Vec<(String, Vec<String>)> = Vec::new();
    let mut i: usize = 0;
    while i < n
        invariant
            cache.wf(),
            i <= n,
            n == cache.categories@.len(),
            forall|k: int| 0 <= k < built@.len() ==> goodpair(#[trigger] built@[k]),
            forall|k: int| 0 <= k < built@.len() ==> (exists|j: int|
                0 <= j < i && (#[trigger] built@[k].0@) == cache.paths()[j]),
            forall|k: int, l: int| 0 <= k < l < built@.len() ==> (#[trigger] built@[k].0@)
                != (#[trigger] built@[l].0@),
            forall|j: int| 0 <= j < i && (#[trigger] cache.categories@[j]).entry.worn().len() > 0
                ==> (exists|k: int| 0 <= k < built@.len() && (#[trigger] built@[k].0@)
                == cache.paths()[j]),
            goodpair == (|p: (String, Vec<String>)| good_worn_pair(*cache, p)),
        decreases n - i,
    {
        if cache.categories[i].entry.worn_outfits.len() > 0 {
            let names = crate::models::clone_strings(&cache.categories[i].entry.worn_outfits);
            let ghost names0 = names@;
            let sorted_names = crate::sorting::sort_by_key(names);
            let pair = (cache.categories[i].path.clone(), sorted_names);
            let ghost prev = built@;
            built.push(pair);
            proof {
                assert(string_views(names0) =~= cache.categories@[i as int].entry.worn());
                crate::models::lemma_string_views_permutation(names0, built@[built@.len() - 1].1@);
                assert(built@[built@.len() - 1].0@ == cache.paths()[i as int]);
                assert(goodpair(built@[built@.len() - 1]));
                assert(forall|k: int| 0 <= k < prev.len() ==> built@[k] == prev[k]);
                assert forall|k: int, l: int|
                    0 <= k < l < built@.len() implies (#[trigger] built@[k].0@)
                    != (#[trigger] built@[l].0@) by {
                    if l == built@.len() - 1 {
                        let j = choose|j: int|
                            0 <= j < i && (#[trigger] prev[k].0@) == cache.paths()[j];
                        assert(built@[k].0@ == cache.paths()[j]);
                        assert(built@[l].0@ == cache.paths()[i as int]);
                    }
                }
            }
        }
        i = i + 1;
    }
    let ghost built_view = built@;
    let r = crate::sorting::sort_by_key(built);
    proof {
        broadcast use vstd::seq_lib::group_to_multiset_ensures;

        lemma_permutation_all_pairs(built_view, r@, goodpair);
        lemma_permutation_distinct_keys(built_view, r@);
        assert forall|k: int| 0 <= k < r@.len() implies good_worn_pair(*cache, #[trigger] r@[k])
            by {
            assert(goodpair(r@[k]));
        }
        assert forall|i: int|
            0 <= i < cache.categories@.len() && (#[trigger] cache.categories@[i]).entry.worn().len()
                > 0 implies (exists|k: int|
            0 <= k < r@.len() && (#[trigger] r@[k].0@) == cache.paths()[i]) by {
            let k0 = choose|k: int|
                0 <= k < built_view.len() && (#[trigger] built_view[k].0@) == cache.paths()[i];
            assert(built_view.contains(built_view[k0]));
            assert(built_view.to_multiset().contains(built_view[k0]));
            assert(r@.to_multiset().contains(built_view[k0]));
            assert(r@.contains(built_view[k0]));
            let k = choose|k: int| 0 <= k < r@.len() && r@[k] == built_view[k0];
            assert(r@[k].0@ == cache.paths()[i]);
        }
    }
    r
}

/// The main outfit picker service.
///
/// Orchestrates the scanner and the stores: scanning categories,
/// selecting random outfits, tracking worn outfits and rotation
/// progress. The rotation logic itself lives in the functions above;
/// every step between loading and saving is verified.
pub struct OutfitPickerService<C, M, S> {
    config: Config,
    cache_manager: M,
    config_service: C,
    scanner: S,
}

impl<C: ConfigRepositoryPort, M: CacheRepositoryPort, S: CategoryScannerPort> OutfitPickerService<
    C,
    M,
    S,
> {
    /// The configuration the service currently holds.
    pub closed spec fn spec_config(&self) -> Config {
        self.config
    }

    /// Creates an outfit picker from a configuration and its backends.
    pub fn with_services(config: Config, cache_manager: M, config_service: C, scanner: S) -> (r:
        OutfitPickerService<C, M, S>)
        ensures
            r.spec_config() == config,
    {
        OutfitPickerService { config, cache_manager, config_service, scanner }
    }

    /// The current configuration.
    pub fn config(&self) -> (r: &Config)
        ensures
            *r == self.spec_config(),
    {
        &self.config
    }

    /// Replaces the configuration, persisting it first; on a save error
    /// the old configuration is kept.
    pub fn update_config(&mut self, config: Config) -> (r: Result<(), OutfitPickerError>)
        ensures
            r is Ok ==> final(self).spec_config() == config,
            r is Err ==> final(self).spec_config() == old(self).spec_config(),
    {
        match self.config_service.save(&config) {
            Err(e) => Err(e),
            Ok(_) => {
                self.config = config;
                Ok(())
            },
        }
    }

    /// The current root path.
    pub fn root_path(&self) -> (r: &str)
        ensures
            r@ == self.spec_config().root@,
    {
        self.config.root.as_str()
    }

    /// The current language, when one is set.
    pub fn language(&self) -> (r: Option<&str>)
        ensures
            r is Some <==> self.spec_config().language is Some,
            r matches Some(l) ==> l@ == self.spec_config().language->0@,
    {
        match &self.config.language {
            Some(l) => Some(l.as_str()),
            None => None,
        }
    }

    /// Changes the language setting; an unsupported code is rejected
    /// before anything changes.
    pub fn change_language(&mut self, language: Option<String>) -> (r: Result<
        (),
        OutfitPickerError,
    >)
        ensures
            (language matches Some(l) && !crate::models::is_supported_lang(l@)) ==> (r is Err
                && final(self).spec_config() == old(self).spec_config()),
            (match language {
                Some(l) => crate::models::is_supported_lang(l@),
                None => true,
            }) ==> (final(self).spec_config().language == language && final(self).spec_config().root@
                == old(self).spec_config().root@),
    {
        match &language {
            Some(lang) => {
                if !Config::is_supported_language(lang.as_str()) {
                    let code = lang.clone();
                    return Err(OutfitPickerError::Config(ConfigError::UnsupportedLanguage(code)));
                }
            },
            None => (),
        }
        self.config.language = language;
        match self.config_service.save(&self.config) {
            Err(e) => Err(e),
            Ok(_) => Ok(()),
        }
    }

    /// The categories excluded from selection.
    pub fn excluded_categories(&self) -> (r: &Vec<String>)
        ensures
            *r == self.spec_config().excluded_categories,
    {
        &self.config.excluded_categories
    }

    /// Excludes a category from outfit selection; a blank name is
    /// rejected, a name already excluded is kept once.
    pub fn exclude_category(&mut self, category_name: &str) -> (r: Result<(), OutfitPickerError>)
        ensures
            crate::text::is_blank(category_name@) ==> (r matches Err(e) && (e matches
                OutfitPickerError::InvalidInput(m) && m@ == "Category name cannot be empty"@)
                && final(self).spec_config() == old(self).spec_config()),
            !crate::text::is_blank(category_name@) ==> (contains_string(
                final(self).spec_config().excluded_categories@,
                category_name@,
            ) && (string_views(final(self).spec_config().excluded_categories@) == string_views(
                old(self).spec_config().excluded_categories@,
            ) || string_views(final(self).spec_config().excluded_categories@) == string_views(
                old(self).spec_config().excluded_categories@,
            ).push(category_name@))),
    {
        if crate::text::str_is_blank(category_name) {
            return Err(OutfitPickerError::InvalidInput(String::from_str(
                "Category name cannot be empty",
            )));
        }
        if !vec_contains_str(&self.config.excluded_categories, category_name) {
            self.config.excluded_categories.push(category_name.to_owned());
            proof {
                assert(string_views(self.config.excluded_categories@) =~= string_views(
                    old(self).config.excluded_categories@,
                ).push(category_name@));
                let last = self.config.excluded_categories@.len() - 1;
                assert(self.config.excluded_categories@[last]@ == category_name@);
                assert(contains_string(self.config.excluded_categories@, category_name@));
            }
        }
        match self.config_service.save(&self.config) {
            Err(e) => Err(e),
            Ok(_) => Ok(()),
        }
    }

    /// Includes a previously excluded category again: every occurrence of
    /// the name leaves the exclusion set.
    pub fn include_category(&mut self, category_name: &str) -> (r: Result<(), OutfitPickerError>)
        ensures
            string_views(final(self).spec_config().excluded_categories@) == string_views(
                old(self).spec_config().excluded_categories@,
            ).filter(|n: Seq<char>| n != category_name@),
            !contains_string(final(self).spec_config().excluded_categories@, category_name@),
    {
        let ghost pred = |n: Seq<char>| n != category_name@;
        let excluded = &self.config.excluded_categories;
        let n = excluded.len();
        let mut kept: Vec<String> = Vec::new();
        let mut i: usize = 0;
        proof {
            assert(string_views(excluded@.subrange(0, 0)).filter(pred) =~= Seq::empty());
            assert(string_views(kept@) =~= Seq::empty());
        }
        while i < n
            invariant
                i <= n,
                n == excluded@.len(),
                excluded == &self.config.excluded_categories,
                string_views(kept@) == string_views(excluded@.subrange(0, i as int)).filter(pred),
                forall|k: int| 0 <= k < kept@.len() ==> #[trigger] kept@[k]@ != category_name@,
                pred == (|n: Seq<char>| n != category_name@),
            decreases n - i,
        {
            let keep = !crate::text::str_eq(excluded[i].as_str(), category_name);
            proof {
                let prefix = string_views(excluded@.subrange(0, i as int));
                let elem = excluded@[i as int]@;
                assert(string_views(excluded@.subrange(0, i + 1)) =~= prefix.push(elem));
                prefix.lemma_filter_push(elem, pred);
            }
            if keep {
                let ghost prev = kept@;
                kept.push(excluded[i].clone());
                proof {
                    assert(string_views(kept@) =~= string_views(prev).push(excluded@[i as int]@));
                }
            }
            i = i + 1;
        }
        proof {
            assert(excluded@.subrange(0, n as int) =~= excluded@);
        }
        self.config.excluded_categories = kept;
        match self.config_service.save(&self.config) {
            Err(e) => Err(e),
            Ok(_) => Ok(()),
        }
    }

    /// Scans for the available categories and fills each one's worn
    /// count from the cache; a cache that cannot be read counts as
    /// empty, so the listing still succeeds.
    pub fn get_categories(&self) -> (r: Result<Vec<CategoryInfo>, OutfitPickerError>) {
        let categories = match self.scanner.scan_categories(
            self.config.root.as_str(),
            &self.config.excluded_categories,
        ) {
            Err(e) => {
                return Err(e);
            },
            Ok(c) => c,
        };
        let cache = cache_or_empty(self.cache_manager.load());
        Ok(merge_worn_counts(categories, &cache))
    }

    /// Lists all outfits of a named category; an unknown category name
    /// is an error.
    pub fn get_outfits(&self, category_name: &str) -> (r: Result<Vec<FileEntry>, OutfitPickerError>) {
        let categories = match self.get_categories() {
            Err(e) => {
                return Err(e);
            },
            Ok(c) => c,
        };
        match find_category(&categories, category_name) {
            None => Err(OutfitPickerError::CategoryNotFound(category_name.to_owned())),
            Some(i) => self.scanner.scan_outfits(categories[i].category.path.as_str()),
        }
    }

    /// The rotation status of a category: worn count and live total,
    /// both zero for a category with no outfits.
    pub fn get_rotation_status(&self, category_name: &str) -> (r: Result<
        (usize, usize),
        OutfitPickerError,
    >)
        ensures
            r matches Ok(st) ==> (st.1 == 0 ==> st.0 == 0),
    {
        let outfits = match self.get_outfits(category_name) {
            Err(e) => {
                return Err(e);
            },
            Ok(o) => o,
        };
        if outfits.len() == 0 {
            return Ok((0, 0));
        }
        let cache = match self.cache_manager.load() {
            Err(e) => {
                return Err(e);
            },
            Ok(c) => c,
        };
        Ok(rotation_status_of(&outfits, &cache))
    }

    /// Whether a category's rotation is complete: it has outfits and all
    /// of them were worn; false for a category with no outfits, not
    /// vacuously true.
    pub fn is_rotation_complete(&self, category_name: &str) -> (r: Result<bool, OutfitPickerError>) {
        match self.get_rotation_status(category_name) {
            Err(e) => Err(e),
            Ok(st) => Ok(rotation_complete_of(st.0, st.1)),
        }
    }

    /// Selects a random outfit from a category, marks it worn and
    /// persists the cache. No outfits yields no selection, not an error.
    pub fn select_random_outfit(&self, category_name: &str) -> (r: Result<
        Option<OutfitSelection>,
        OutfitPickerError,
    >)
        ensures
            crate::text::is_blank(category_name@) ==> (r matches Err(e) && (e matches
                OutfitPickerError::InvalidInput(m) && m@ == "Category name cannot be empty"@)),
            r matches Ok(Some(sel)) ==> ((sel.rotation_was_reset ==> sel.worn_count == 1)
                && sel.worn_count >= 1),
    {
        if crate::text::str_is_blank(category_name) {
            return Err(OutfitPickerError::InvalidInput(String::from_str(
                "Category name cannot be empty",
            )));
        }
        let outfits = match self.get_outfits(category_name) {
            Err(e) => {
                return Err(e);
            },
            Ok(o) => o,
        };
        if outfits.len() == 0 {
            return Ok(None);
        }
        let mut cache = match self.cache_manager.load() {
            Err(e) => {
                return Err(e);
            },
            Ok(c) => c,
        };
        let path = outfits[0].category_path.clone();
        match select_outfit_from_listing(&mut cache, path.as_str(), &outfits) {
            None => Ok(None),
            Some(sel) => {
                match self.cache_manager.save(&cache) {
                    Err(e) => Err(e),
                    Ok(_) => Ok(Some(sel)),
                }
            },
        }
    }

    /// Selects a random outfit from a random category that has outfits.
    pub fn select_random_outfit_across_categories(&self) -> (r: Result<
        Option<OutfitSelection>,
        OutfitPickerError,
    >)
        ensures
            r matches Ok(Some(sel)) ==> ((sel.rotation_was_reset ==> sel.worn_count == 1)
                && sel.worn_count >= 1),
    {
        let categories = match self.get_categories() {
            Err(e) => {
                return Err(e);
            },
            Ok(c) => c,
        };
        let available = categories_with_outfits(&categories);
        if available.len() == 0 {
            return Ok(None);
        }
        let pick = random_index(available.len());
        let chosen = available[pick];
        let name = categories[chosen].category.name.clone();
        self.select_random_outfit(name.as_str())
    }

    /// Marks a named outfit as worn, without reporting progress. The
    /// outfit must exist in the category's current listing.
    pub fn wear_outfit(&self, category_name: &str, file_name: &str) -> (r: Result<
        (),
        OutfitPickerError,
    >)
        ensures
            crate::text::is_blank(category_name@) ==> (r matches Err(e) && (e matches
                OutfitPickerError::InvalidInput(m) && m@ == "Category name cannot be empty"@)),
            (!crate::text::is_blank(category_name@) && crate::text::is_blank(file_name@)) ==> (r
                matches Err(e) && (e matches OutfitPickerError::InvalidInput(m) && m@
                == "File name cannot be empty"@)),
    {
        if crate::text::str_is_blank(category_name) {
            return Err(OutfitPickerError::InvalidInput(String::from_str(
                "Category name cannot be empty",
            )));
        }
        if crate::text::str_is_blank(file_name) {
            return Err(OutfitPickerError::InvalidInput(String::from_str(
                "File name cannot be empty",
            )));
        }
        let outfits = match self.get_outfits(category_name) {
            Err(e) => {
                return Err(e);
            },
            Ok(o) => o,
        };
        match wear_lookup(&outfits, file_name) {
            Err(e) => Err(e),
            Ok(_) => {
                let mut cache = match self.cache_manager.load() {
                    Err(e) => {
                        return Err(e);
                    },
                    Ok(c) => c,
                };
                let path = outfits[0].category_path.clone();
                wear_in_cache(&mut cache, path.as_str(), outfits.len(), file_name);
                self.cache_manager.save(&cache)
            },
        }
    }

    /// Manually selects a specific outfit by name, marking it worn and
    /// reporting the rotation progress; the outfit must exist in the
    /// category's current listing.
    pub fn select_outfit_manually(&self, category_name: &str, file_name: &str) -> (r: Result<
        OutfitSelection,
        OutfitPickerError,
    >)
        ensures
            crate::text::is_blank(category_name@) ==> (r matches Err(e) && (e matches
                OutfitPickerError::InvalidInput(m) && m@ == "Category name cannot be empty"@)),
            (!crate::text::is_blank(category_name@) && crate::text::is_blank(file_name@)) ==> (r
                matches Err(e) && (e matches OutfitPickerError::InvalidInput(m) && m@
                == "File name cannot be empty"@)),
            r matches Ok(sel) ==> (sel.outfit.file_name@ == file_name@ && (sel.rotation_was_reset
                ==> sel.worn_count == 1) && sel.worn_count >= 1),
    {
        if crate::text::str_is_blank(category_name) {
            return Err(OutfitPickerError::InvalidInput(String::from_str(
                "Category name cannot be empty",
            )));
        }
        if crate::text::str_is_blank(file_name) {
            return Err(OutfitPickerError::InvalidInput(String::from_str(
                "File name cannot be empty",
            )));
        }
        let outfits = match self.get_outfits(category_name) {
            Err(e) => {
                return Err(e);
            },
            Ok(o) => o,
        };
        match manual_lookup(&outfits, category_name, file_name) {
            Err(e) => Err(e),
            Ok(i) => {
                let outfit = outfits[i].clone();
                let mut cache = match self.cache_manager.load() {
                    Err(e) => {
                        return Err(e);
                    },
                    Ok(c) => c,
                };
                let path = outfit.category_path.clone();
                let picked = record_selection(
                    &mut cache,
                    path.as_str(),
                    outfits.len(),
                    outfit.file_name.as_str(),
                );
                match self.cache_manager.save(&cache) {
                    Err(e) => Err(e),
                    Ok(_) => Ok(OutfitSelection::new(outfit, picked.1, picked.2, picked.0)),
                }
            },
        }
    }

    /// Resets the rotation for one category: its worn set is cleared,
    /// its total kept. A category with no files, or without a cache
    /// entry, is left as it is.
    pub fn reset_category(&self, category_name: &str) -> (r: Result<(), OutfitPickerError>) {
        let outfits = match self.get_outfits(category_name) {
            Err(e) => {
                return Err(e);
            },
            Ok(o) => o,
        };
        if outfits.len() == 0 {
            return Ok(());
        }
        let mut cache = match self.cache_manager.load() {
            Err(e) => {
                return Err(e);
            },
            Ok(c) => c,
        };
        let path = outfits[0].category_path.clone();
        let found = match cache.find_index(path.as_str()) {
            None => {
                return Ok(());
            },
            Some(i) => i,
        };
        cache.reset_at(found);
        self.cache_manager.save(&cache)
    }

    /// Resets every category's rotation in one persisted step.
    pub fn reset_all_categories(&self) -> (r: Result<(), OutfitPickerError>) {
        let mut cache = match self.cache_manager.load() {
            Err(e) => {
                return Err(e);
            },
            Ok(c) => c,
        };
        cache.reset_all();
        self.cache_manager.save(&cache)
    }

    /// Deletes the stored cache and configuration.
    pub fn factory_reset(&self) -> (r: Result<(), OutfitPickerError>) {
        match self.cache_manager.delete() {
            Err(e) => {
                return Err(e);
            },
            Ok(_) => (),
        }
        self.config_service.delete()
    }

    /// The worn outfits of every category that has any, as pairs of
    /// category path and sorted worn names, ordered by path.
    pub fn get_all_worn_outfits(&self) -> (r: Result<
        Vec<(String, Vec<String>)>,
        OutfitPickerError,
    >)
        ensures
            r matches Ok(listing) ==> crate::sorting::sorted_by_key(listing@),
    {
        match self.cache_manager.load() {
            Err(e) => Err(e),
            Ok(cache) => Ok(worn_listing(&cache)),
        }
    }

    /// Whether a named outfit is worn in the current rotation; false for
    /// a category with no outfits.
    pub fn is_outfit_worn(&self, category_name: &str, file_name: &str) -> (r: Result<
        bool,
        OutfitPickerError,
    >) {
        let outfits = match self.get_outfits(category_name) {
            Err(e) => {
                return Err(e);
            },
            Ok(o) => o,
        };
        if outfits.len() == 0 {
            return Ok(false);
        }
        let cache = match self.cache_manager.load() {
            Err(e) => {
                return Err(e);
            },
            Ok(c) => c,
        };
        match cache.get(outfits[0].category_path.as_str()) {
            None => Ok(false),
            Some(e) => Ok(vec_contains_str(&e.worn_outfits, file_name)),
        }
    }

    /// The outfits of a category not yet worn in the current rotation.
    pub fn get_unworn_outfits(&self, category_name: &str) -> (r: Result<
        Vec<FileEntry>,
        OutfitPickerError,
    >) {
        let outfits = match self.get_outfits(category_name) {
            Err(e) => {
                return Err(e);
            },
            Ok(o) => o,
        };
        if outfits.len() == 0 {
            return Ok(Vec::new());
        }
        let cache = match self.cache_manager.load() {
            Err(e) => {
                return Err(e);
            },
            Ok(c) => c,
        };
        let path = outfits[0].category_path.clone();
        Ok(filter_by_worn(outfits, &cache, path.as_str(), false))
    }

    /// The outfits of a category already worn in the current rotation.
    pub fn get_worn_outfits(&self, category_name: &str) -> (r: Result<
        Vec<FileEntry>,
        OutfitPickerError,
    >) {
        let outfits = match self.get_outfits(category_name) {
            Err(e) => {
                return Err(e);
            },
            Ok(o) => o,
        };
        if outfits.len() == 0 {
            return Ok(Vec::new());
        }
        let cache = match self.cache_manager.load() {
            Err(e) => {
                return Err(e);
            },
            Ok(c) => c,
        };
        let path = outfits[0].category_path.clone();
        Ok(filter_by_worn(outfits, &cache, path.as_str(), true))
    }

    /// Changes the root path for outfit directories, saving a fresh
    /// configuration; optionally deletes the cache when the path
    /// actually changed.
    pub fn change_root_path(&mut self, new_path: &str, clear_cache: bool) -> (r: Result<
        (),
        OutfitPickerError,
    >)
        ensures
            crate::path_validator::path_error(new_path@) is Some ==> (r is Err
                && final(self).spec_config() == old(self).spec_config()),
    {
        match crate::path_validator::PathValidator::validate(new_path) {
            Err(e) => {
                return Err(e);
            },
            Ok(_) => (),
        }
        if str_eq(self.config.root.as_str(), new_path) {
            return Ok(());
        }
        let language = match &self.config.language {
            Some(l) => Some(l.clone()),
            None => None,
        };
        let new_config = match Config::new(new_path, language) {
            Err(e) => {
                return Err(e);
            },
            Ok(c) => c,
        };
        match self.config_service.save(&new_config) {
            Err(e) => {
                return Err(e);
            },
            Ok(_) => (),
        }
        self.config = new_config;
        if clear_cache {
            match self.cache_manager.delete() {
                Err(e) => {
                    return Err(e);
                },
                Ok(_) => (),
            }
        }
        Ok(())
    }
}

/// A permutation of pairs whose keys are pairwise distinct again has
/// pairwise distinct keys.
proof fn lemma_permutation_distinct_keys(a: Seq<(String, Vec<String>)>, b: Seq<(String, Vec<String>)>)
    requires
        a.to_multiset() == b.to_multiset(),
        forall|k: int, l: int| 0 <= k < l < a.len() ==> (#[trigger] a[k].0@) != (#[trigger] a[l].0@),
    ensures
        forall|k: int, l: int| 0 <= k < l < b.len() ==> (#[trigger] b[k].0@) != (#[trigger] b[l].0@),
{
    broadcast use vstd::seq_lib::group_to_multiset_ensures;
    broadcast use vstd::multiset::group_multiset_axioms;

    assert forall|k: int, l: int| 0 <= k < l < b.len() implies (#[trigger] b[k].0@)
        != (#[trigger] b[l].0@) by {
        if b[k].0@ == b[l].0@ {
            if b[k] == b[l] {
                // The shared value occurs at least twice in b, hence in a,
                // hence at two positions of a — contradicting distinct keys.
                let v = b[k];
                let b1 = b.remove(l);
                vstd::seq_lib::to_multiset_remove(b, l);
                assert(b1[k] == v);
                assert(b1.contains(v));
                assert(b1.to_multiset().count(v) > 0);
                assert(b.to_multiset().count(v) >= 2);
                assert(a.to_multiset().count(v) >= 2);
                assert(a.to_multiset().contains(v));
                assert(a.contains(v));
                let p = choose|p: int| 0 <= p < a.len() && a[p] == v;
                let a1 = a.remove(p);
                vstd::seq_lib::to_multiset_remove(a, p);
                assert(a1.to_multiset().count(v) >= 1);
                assert(a1.to_multiset().contains(v));
                assert(a1.contains(v));
                let q1 = choose|q: int| 0 <= q < a1.len() && a1[q] == v;
                let q = if q1 < p { q1 } else { q1 + 1 };
                assert(a[q] == v);
                assert(q != p);
                assert(a[p].0@ == a[q].0@);
            } else {
                // Two different values with the same key both occur in a.
                assert(b.contains(b[k]));
                assert(b.to_multiset().contains(b[k]));
                assert(a.to_multiset().contains(b[k]));
                assert(a.contains(b[k]));
                assert(b.contains(b[l]));
                assert(b.to_multiset().contains(b[l]));
                assert(a.to_multiset().contains(b[l]));
                assert(a.contains(b[l]));
                let p = choose|p: int| 0 <= p < a.len() && a[p] == b[k];
                let q = choose|q: int| 0 <= q < a.len() && a[q] == b[l];
                assert(p != q);
                assert(a[p].0@ == a[q].0@);
            }
        }
    }
}

/// Every pair of a permutation satisfies what every pair of the original
/// satisfies.
proof fn lemma_permutation_all_pairs(
    a: Seq<(String, Vec<String>)>,
    b: Seq<(String, Vec<String>)>,
    p: spec_fn((String, Vec<String>)) -> bool,
)
    requires
        a.to_multiset() == b.to_multiset(),
        forall|i: int| 0 <= i < a.len() ==> p(#[trigger] a[i]),
    ensures
        forall|i: int| 0 <= i < b.len() ==> p(#[trigger] b[i]),
{
    broadcast use vstd::seq_lib::group_to_multiset_ensures;

    assert forall|i: int| 0 <= i < b.len() implies p(#[trigger] b[i]) by {
        assert(b.contains(b[i]));
        assert(b.to_multiset().contains(b[i]));
        assert(a.to_multiset().contains(b[i]));
        assert(a.contains(b[i]));
        let j = choose|j: int| 0 <= j < a.len() && a[j] == b[i];
        assert(p(a[j]));
    }
}

} // verus!
