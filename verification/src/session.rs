//! Session-scoped skip tracking.
//!
//! Outfits skipped while browsing are remembered per category, and
//! separately for cross-category random selection, so they are not offered
//! again until the session or the category is reset. Nothing here is
//! persisted.

use vstd::prelude::*;

use crate::models::{contains_string, lemma_contains_string_views, string_views, vec_contains_str};
use crate::text::str_eq;

verus! {

/// Skipped names for one category.
pub struct SkipSlot {
    /// The category name the skips belong to.
    pub category: String,
    /// The skipped file names; no name occurs twice.
    pub names: Vec<String>,
}

/// Tracks skipped outfits within a session.
pub struct OutfitSession {
    /// Skipped outfits per category name.
    pub category_skipped: Vec<SkipSlot>,
    /// Globally skipped outfits, for cross-category random selection.
    pub global_skipped: Vec<String>,
}

impl OutfitSession {
    /// The category names holding skip sets, in slot order.
    pub open spec fn cats(&self) -> Seq<Seq<char>> {
        self.category_skipped@.map_values(|s: SkipSlot| s.category@)
    }

    /// The slot index of the given category name.
    pub open spec fn cat_index(&self, c: Seq<char>) -> int {
        choose|i: int| 0 <= i < self.cats().len() && self.cats()[i] == c
    }

    /// The names skipped in the given category; empty when none were.
    pub open spec fn skipped_in(&self, c: Seq<char>) -> Seq<Seq<char>> {
        if self.cats().contains(c) {
            string_views(self.category_skipped@[self.cat_index(c)].names@)
        } else {
            Seq::empty()
        }
    }

    /// The globally skipped names.
    pub open spec fn global(&self) -> Seq<Seq<char>> {
        string_views(self.global_skipped@)
    }

    /// Well-formedness: category names are unique, and no skip list holds
    /// a name twice.
    pub open spec fn wf(&self) -> bool {
        (forall|i: int, j: int| 0 <= i < j < self.cats().len() ==> self.cats()[i] != self.cats()[j])
            && (forall|k: int|
            0 <= k < self.category_skipped@.len() ==> no_dup_strings(
                (#[trigger] self.category_skipped@[k]).names@,
            )) && no_dup_strings(self.global_skipped@)
    }

    /// Creates an empty session.
    pub fn new() -> (r: OutfitSession)
        ensures
            r.category_skipped@.len() == 0,
            r.global().len() == 0,
            r.wf(),
    {
        OutfitSession { category_skipped: Vec::new(), global_skipped: Vec::new() }
    }

    /// Finds the slot index holding the given category name.
    fn find_cat(&self, category: &str) -> (r: Option<usize>)
        ensures
            r matches Some(i) ==> (i < self.category_skipped@.len() && self.cats()[i as int]
                == category@),
            r is None ==> !self.cats().contains(category@),
    {
        let n = self.category_skipped.len();
        let mut i: usize = 0;
        loop
            invariant
                i <= n,
                n == self.category_skipped@.len(),
                forall|j: int| 0 <= j < i ==> self.cats()[j] != category@,
            decreases n - i,
        {
            if i == n {
                return None;
            }
            if str_eq(self.category_skipped[i].category.as_str(), category) {
                return Some(i);
            }
            i = i + 1;
        }
    }

    /// Marks an outfit as skipped in a specific category; skipping the
    /// same name twice changes nothing.
    pub fn skip_in_category(&mut self, category: &str, file_name: &str)
        requires
            old(self).wf(),
        ensures
            final(self).wf(),
            final(self).skipped_in(category@) == (if old(self).skipped_in(category@).contains(
                file_name@,
            ) {
                old(self).skipped_in(category@)
            } else {
                old(self).skipped_in(category@).push(file_name@)
            }),
            forall|c2: Seq<char>| c2 != category@ ==> #[trigger] final(self).skipped_in(c2)
                == old(self).skipped_in(c2),
            final(self).global() == old(self).global(),
    {
        match self.find_cat(category) {
            Some(i) => {
                proof {
                    assert(self.cats().contains(category@));
                    assert(self.cat_index(category@) == i as int) by {
                        let k = self.cat_index(category@);
                        assert(0 <= k < self.cats().len() && self.cats()[k] == category@);
                    }
                }
                if !vec_contains_str(&self.category_skipped[i].names, file_name) {
                    proof {
                        lemma_contains_string_views(self.category_skipped@[i as int].names@, file_name@);
                    }
                    self.category_skipped[i].names.push(file_name.to_owned());
                    proof {
                        assert(self.cats() =~= old(self).cats());
                        assert(string_views(self.category_skipped@[i as int].names@)
                            =~= string_views(old(self).category_skipped@[i as int].names@).push(
                            file_name@,
                        ));
                        lemma_same_cat_index(old(self), self, category@);
                        assert(forall|c2: Seq<char>| c2 != category@
                            ==> #[trigger] self.skipped_in(c2) == old(self).skipped_in(c2)) by {
                            lemma_other_slots_same(old(self), self, i as int);
                        }
                    }
                } else {
                    proof {
                        lemma_contains_string_views(self.category_skipped@[i as int].names@, file_name@);
                    }
                }
            },
            None => {
                let slot = SkipSlot { category: category.to_owned(), names: Vec::new() };
                self.category_skipped.push(slot);
                let n = self.category_skipped.len();
                proof {
                    assert(self.cats() =~= old(self).cats().push(category@));
                    assert(self.cats()[n - 1] == category@);
                    assert(self.cats().contains(category@));
                    assert(self.cat_index(category@) == n - 1) by {
                        let k = self.cat_index(category@);
                        assert(0 <= k < self.cats().len() && self.cats()[k] == category@);
                        if k < n - 1 {
                            assert(old(self).cats()[k] == category@);
                            assert(old(self).cats().contains(category@));
                        }
                    }
                }
                self.category_skipped[n - 1].names.push(file_name.to_owned());
                proof {
                    assert(self.cats() =~= old(self).cats().push(category@));
                    assert(string_views(self.category_skipped@[n - 1].names@) =~= Seq::empty().push(
                        file_name@,
                    ));
                    assert(self.cat_index(category@) == n - 1) by {
                        let k = self.cat_index(category@);
                        assert(0 <= k < self.cats().len() && self.cats()[k] == category@);
                        if k < n - 1 {
                            assert(old(self).cats()[k] == category@);
                        }
                    }
                    assert(old(self).skipped_in(category@) == Seq::<Seq<char>>::empty());
                    assert(self.skipped_in(category@) =~= old(self).skipped_in(category@).push(
                        file_name@,
                    ));
                    assert(forall|c2: Seq<char>| c2 != category@ ==> #[trigger] self.skipped_in(
                        c2,
                    ) == old(self).skipped_in(c2)) by {
                        assert forall|c2: Seq<char>| c2 != category@ implies #[trigger] self
                            .skipped_in(c2) == old(self).skipped_in(c2) by {
                            assert(self.cats().contains(c2) == old(self).cats().contains(c2)) by {
                                if old(self).cats().contains(c2) {
                                    let k = choose|k: int|
                                        0 <= k < old(self).cats().len() && old(self).cats()[k]
                                            == c2;
                                    assert(self.cats()[k] == c2);
                                }
                                if self.cats().contains(c2) {
                                    let k = choose|k: int|
                                        0 <= k < self.cats().len() && self.cats()[k] == c2;
                                    assert(k != n - 1);
                                    assert(old(self).cats()[k] == c2);
                                }
                            }
                            if self.cats().contains(c2) {
                                let k = self.cat_index(c2);
                                let k0 = old(self).cat_index(c2);
                                assert(0 <= k < self.cats().len() && self.cats()[k] == c2);
                                assert(k != n - 1);
                                assert(old(self).cats()[k] == c2);
                                assert(0 <= k0 < old(self).cats().len() && old(self).cats()[k0]
                                    == c2);
                                assert(k == k0);
                                assert(self.category_skipped@[k] == old(self).category_skipped@[k]);
                            }
                        }
                    }
                }
            },
        }
    }

    /// Marks an outfit as globally skipped; duplicates change nothing.
    pub fn skip_global(&mut self, file_name: &str)
        requires
            old(self).wf(),
        ensures
            final(self).wf(),
            final(self).global() == (if old(self).global().contains(file_name@) {
                old(self).global()
            } else {
                old(self).global().push(file_name@)
            }),
            final(self).category_skipped@ == old(self).category_skipped@,
    {
        proof {
            lemma_contains_string_views(self.global_skipped@, file_name@);
        }
        if !vec_contains_str(&self.global_skipped, file_name) {
            self.global_skipped.push(file_name.to_owned());
            proof {
                assert(self.global() =~= old(self).global().push(file_name@));
                assert(self.cats() =~= old(self).cats());
            }
        }
        proof {
            assert(self.cats() =~= old(self).cats());
        }
    }

    /// Decides whether an outfit was skipped in a category.
    pub fn is_skipped_in_category(&self, category: &str, file_name: &str) -> (r: bool)
        requires
            self.wf(),
        ensures
            r == self.skipped_in(category@).contains(file_name@),
    {
        match self.find_cat(category) {
            None => {
                proof {
                    assert(!self.skipped_in(category@).contains(file_name@));
                }
                false
            },
            Some(i) => {
                proof {
                    assert(self.cats()[i as int] == category@);
                    assert(self.cats().contains(category@));
                    assert(self.cat_index(category@) == i as int) by {
                        let k = self.cat_index(category@);
                        assert(0 <= k < self.cats().len() && self.cats()[k] == category@);
                    }
                    lemma_contains_string_views(self.category_skipped@[i as int].names@, file_name@);
                }
                vec_contains_str(&self.category_skipped[i].names, file_name)
            },
        }
    }

    /// Decides whether an outfit was globally skipped.
    pub fn is_skipped_global(&self, file_name: &str) -> (r: bool)
        ensures
            r == self.global().contains(file_name@),
    {
        proof {
            lemma_contains_string_views(self.global_skipped@, file_name@);
        }
        vec_contains_str(&self.global_skipped, file_name)
    }

    /// The number of outfits skipped in a category.
    pub fn skipped_count_in_category(&self, category: &str) -> (r: usize)
        requires
            self.wf(),
        ensures
            r == self.skipped_in(category@).len(),
    {
        match self.find_cat(category) {
            None => 0,
            Some(i) => {
                proof {
                    assert(self.cats()[i as int] == category@);
                    assert(self.cats().contains(category@));
                    assert(self.cat_index(category@) == i as int) by {
                        let k = self.cat_index(category@);
                        assert(0 <= k < self.cats().len() && self.cats()[k] == category@);
                    }
                }
                self.category_skipped[i].names.len()
            },
        }
    }

    /// The number of globally skipped outfits.
    pub fn global_skipped_count(&self) -> (r: usize)
        ensures
            r == self.global().len(),
    {
        self.global_skipped.len()
    }

    /// Forgets the skips of one category; other categories and the global
    /// skips are untouched.
    pub fn reset_category(&mut self, category: &str)
        requires
            old(self).wf(),
        ensures
            final(self).wf(),
            final(self).skipped_in(category@).len() == 0,
            forall|c2: Seq<char>| c2 != category@ ==> #[trigger] final(self).skipped_in(c2)
                == old(self).skipped_in(c2),
            final(self).global() == old(self).global(),
    {
        match self.find_cat(category) {
            None => (),
            Some(i) => {
                proof {
                    assert(self.cat_index(category@) == i as int) by {
                        let k = self.cat_index(category@);
                        assert(0 <= k < self.cats().len() && self.cats()[k] == category@);
                    }
                }
                self.category_skipped.remove(i);
                proof {
                    assert(forall|j: int| 0 <= j < self.cats().len() ==> self.cats()[j] == (if j
                        < i as int {
                        old(self).cats()[j]
                    } else {
                        old(self).cats()[j + 1]
                    }));
                    assert(!self.cats().contains(category@)) by {
                        if self.cats().contains(category@) {
                            let k = choose|k: int|
                                0 <= k < self.cats().len() && self.cats()[k] == category@;
                            if k < i as int {
                                assert(old(self).cats()[k] == category@);
                            } else {
                                assert(old(self).cats()[k + 1] == category@);
                            }
                        }
                    }
                    assert forall|c2: Seq<char>| c2 != category@ implies #[trigger] self.skipped_in(
                        c2,
                    ) == old(self).skipped_in(c2) by {
                        assert(self.cats().contains(c2) == old(self).cats().contains(c2)) by {
                            if old(self).cats().contains(c2) {
                                let k = choose|k: int|
                                    0 <= k < old(self).cats().len() && old(self).cats()[k] == c2;
                                assert(k != i as int);
                                if k < i as int {
                                    assert(self.cats()[k] == c2);
                                } else {
                                    assert(self.cats()[k - 1] == c2);
                                }
                            }
                            if self.cats().contains(c2) {
                                let k = choose|k: int|
                                    0 <= k < self.cats().len() && self.cats()[k] == c2;
                                if k < i as int {
                                    assert(old(self).cats()[k] == c2);
                                } else {
                                    assert(old(self).cats()[k + 1] == c2);
                                }
                            }
                        }
                        if self.cats().contains(c2) {
                            let k = self.cat_index(c2);
                            let k0 = old(self).cat_index(c2);
                            assert(0 <= k < self.cats().len() && self.cats()[k] == c2);
                            assert(0 <= k0 < old(self).cats().len() && old(self).cats()[k0] == c2);
                            if k < i as int {
                                assert(old(self).cats()[k] == c2);
                                assert(k0 == k);
                                assert(self.category_skipped@[k]
                                    == old(self).category_skipped@[k]);
                            } else {
                                assert(old(self).cats()[k + 1] == c2);
                                assert(k0 == k + 1);
                                assert(self.category_skipped@[k]
                                    == old(self).category_skipped@[k + 1]);
                            }
                        }
                    }
                }
            },
        }
    }

    /// Forgets all globally skipped outfits; category skips are kept.
    pub fn reset_global(&mut self)
        requires
            old(self).wf(),
        ensures
            final(self).wf(),
            final(self).global().len() == 0,
            final(self).category_skipped@ == old(self).category_skipped@,
    {
        self.global_skipped = Vec::new();
        proof {
            assert(self.cats() =~= old(self).cats());
        }
    }

    /// Forgets every skip in the session.
    pub fn reset_all(&mut self)
        ensures
            final(self).wf(),
            final(self).global().len() == 0,
            final(self).category_skipped@.len() == 0,
            forall|c: Seq<char>| #[trigger] final(self).skipped_in(c).len() == 0,
    {
        self.category_skipped = Vec::new();
        self.global_skipped = Vec::new();
    }

    /// Filters file names to those not skipped in the category, keeping
    /// their order.
    pub fn filter_category_skipped(&self, category: &str, file_names: &Vec<String>)
        -> (r: Vec<String>)
        requires
            self.wf(),
        ensures
            string_views(r@) == string_views(file_names@).filter(
                |n: Seq<char>| !self.skipped_in(category@).contains(n),
            ),
    {
        let ghost pred = |n: Seq<char>| !self.skipped_in(category@).contains(n);
        let n = file_names.len();
        let mut out: Vec<String> = Vec::new();
        let mut i: usize = 0;
        proof {
            assert(string_views(file_names@.subrange(0, 0)).filter(pred) =~= Seq::empty());
            assert(string_views(out@) =~= Seq::empty());
        }
        loop
            invariant
                self.wf(),
                i <= n,
                n == file_names@.len(),
                string_views(out@) == string_views(file_names@.subrange(0, i as int)).filter(pred),
                pred == (|n: Seq<char>| !self.skipped_in(category@).contains(n)),
            decreases n - i,
        {
            if i == n {
                proof {
                    assert(file_names@.subrange(0, n as int) =~= file_names@);
                }
                return out;
            }
            let keep = !self.is_skipped_in_category(category, file_names[i].as_str());
            proof {
                let prefix = string_views(file_names@.subrange(0, i as int));
                let elem = file_names@[i as int]@;
                assert(string_views(file_names@.subrange(0, i + 1)) =~= prefix.push(elem));
                prefix.lemma_filter_push(elem, pred);
            }
            if keep {
                let ghost prev_out = out@;
                out.push(file_names[i].clone());
                proof {
                    assert(string_views(out@) =~= string_views(prev_out).push(
                        file_names@[i as int]@,
                    ));
                }
            }
            i = i + 1;
        }
    }

    /// Filters file names to those not globally skipped, keeping their
    /// order.
    pub fn filter_global_skipped(&self, file_names: &Vec<String>) -> (r: Vec<String>)
        ensures
            string_views(r@) == string_views(file_names@).filter(
                |n: Seq<char>| !self.global().contains(n),
            ),
    {
        let ghost pred = |n: Seq<char>| !self.global().contains(n);
        let n = file_names.len();
        let mut out: Vec<String> = Vec::new();
        let mut i: usize = 0;
        proof {
            assert(string_views(file_names@.subrange(0, 0)).filter(pred) =~= Seq::empty());
            assert(string_views(out@) =~= Seq::empty());
        }
        loop
            invariant
                i <= n,
                n == file_names@.len(),
                string_views(out@) == string_views(file_names@.subrange(0, i as int)).filter(pred),
                pred == (|n: Seq<char>| !self.global().contains(n)),
            decreases n - i,
        {
            if i == n {
                proof {
                    assert(file_names@.subrange(0, n as int) =~= file_names@);
                }
                return out;
            }
            let keep = !self.is_skipped_global(file_names[i].as_str());
            proof {
                let prefix = string_views(file_names@.subrange(0, i as int));
                let elem = file_names@[i as int]@;
                assert(string_views(file_names@.subrange(0, i + 1)) =~= prefix.push(elem));
                prefix.lemma_filter_push(elem, pred);
            }
            if keep {
                let ghost prev_out = out@;
                out.push(file_names[i].clone());
                proof {
                    assert(string_views(out@) =~= string_views(prev_out).push(
                        file_names@[i as int]@,
                    ));
                }
            }
            i = i + 1;
        }
    }
}

/// Whether a vector of strings holds no character sequence twice.
pub open spec fn no_dup_strings(v: Seq<String>) -> bool {
    forall|i: int, j: int| 0 <= i < j < v.len() ==> v[i]@ != v[j]@
}

/// After an update that keeps the category sequence, the chosen index of
/// a present category is unchanged.
proof fn lemma_same_cat_index(a: &OutfitSession, b: &OutfitSession, c: Seq<char>)
    requires
        a.cats() == b.cats(),
        a.cats().contains(c),
        forall|p: int, q: int| 0 <= p < q < a.cats().len() ==> a.cats()[p] != a.cats()[q],
    ensures
        a.cat_index(c) == b.cat_index(c),
{
    let k = a.cat_index(c);
    let k2 = b.cat_index(c);
    assert(0 <= k < a.cats().len() && a.cats()[k] == c);
    assert(0 <= k2 < b.cats().len() && b.cats()[k2] == c);
}

/// Two sessions with equal category sequences that agree on every slot
/// but one agree on the skips of every other category.
proof fn lemma_other_slots_same(a: &OutfitSession, b: &OutfitSession, i: int)
    requires
        a.cats() == b.cats(),
        0 <= i < a.category_skipped@.len(),
        b.category_skipped@.len() == a.category_skipped@.len(),
        forall|j: int| 0 <= j < a.category_skipped@.len() && j != i
            ==> a.category_skipped@[j] == b.category_skipped@[j],
        forall|p: int, q: int| 0 <= p < q < a.cats().len() ==> a.cats()[p] != a.cats()[q],
    ensures
        forall|c2: Seq<char>| c2 != a.cats()[i] ==> #[trigger] a.skipped_in(c2) == b.skipped_in(
            c2,
        ),
{
    assert forall|c2: Seq<char>| c2 != a.cats()[i] implies #[trigger] a.skipped_in(c2)
        == b.skipped_in(c2) by {
        if a.cats().contains(c2) {
            let k = a.cat_index(c2);
            assert(0 <= k < a.cats().len() && a.cats()[k] == c2);
            assert(b.cat_index(c2) == k) by {
                let k2 = b.cat_index(c2);
                assert(0 <= k2 < b.cats().len() && b.cats()[k2] == c2);
            }
            assert(k != i);
        }
    }
}

} // verus!
