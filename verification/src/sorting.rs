//! Sorting by a lexicographic string key.
//!
//! Scan results and listings are presented in ascending name order so
//! that repeated scans list categories and files deterministically. The
//! key is given by a trait, so files, categories and plain strings share
//! one verified insertion sort.

use vstd::prelude::*;

use crate::text::{lemma_lex_le_antisym, lemma_lex_le_refl, lemma_lex_le_total, lemma_lex_le_trans, lex_le};

verus! {

/// A value ordered by a string key.
pub trait LexKeyed: Sized {
    /// The key the value is ordered by.
    spec fn sort_key(&self) -> Seq<char>;

    /// Decides the order of two values by their keys.
    fn key_le(&self, other: &Self) -> (r: bool)
        ensures
            r == lex_le(self.sort_key(), other.sort_key()),
    ;
}

impl LexKeyed for String {
    open spec fn sort_key(&self) -> Seq<char> {
        self@
    }

    fn key_le(&self, other: &Self) -> (r: bool)
        ensures
            r == lex_le(self.sort_key(), other.sort_key()),
    {
        crate::text::str_le(self.as_str(), other.as_str())
    }
}

/// Whether the sequence is ordered by ascending key.
pub open spec fn sorted_by_key<T: LexKeyed>(s: Seq<T>) -> bool {
    forall|i: int, j: int| 0 <= i < j < s.len() ==> lex_le(
        #[trigger] s[i].sort_key(),
        #[trigger] s[j].sort_key(),
    )
}

/// Sorts a vector by ascending key; the result holds exactly the input
/// values.
pub fn sort_by_key<T: LexKeyed>(v: Vec<T>) -> (r: Vec<T>)
    ensures
        r@.to_multiset() == v@.to_multiset(),
        sorted_by_key(r@),
        r@.len() == v@.len(),
{
    broadcast use vstd::seq_lib::group_to_multiset_ensures;
    broadcast use vstd::seq_lib::to_multiset_insert;
    broadcast use vstd::multiset::group_multiset_axioms;

    let mut rest = v;
    let mut out: Vec<T> = Vec::new();
    proof {
        assert(out@.to_multiset().add(rest@.to_multiset()) =~= v@.to_multiset());
    }
    loop
        invariant
            sorted_by_key(out@),
            out@.to_multiset().add(rest@.to_multiset()) == v@.to_multiset(),
            out@.len() + rest@.len() == v@.len(),
        decreases rest@.len(),
    {
        if rest.len() == 0 {
            proof {
                assert(rest@ =~= Seq::<T>::empty());
                rest@.to_multiset_ensures();
                assert(rest@.to_multiset().len() == 0);
                assert forall|e: T| out@.to_multiset().add(rest@.to_multiset()).count(e)
                    == out@.to_multiset().count(e) by {
                    assert(rest@.to_multiset().count(e) <= rest@.to_multiset().len());
                }
                assert(out@.to_multiset().add(rest@.to_multiset()) =~= out@.to_multiset());
            }
            return out;
        }
        let ghost rest0 = rest@;
        let ghost out0 = out@;
        let x = rest.remove(0);
        proof {
            assert(rest@ =~= rest0.remove(0));
            vstd::seq_lib::to_multiset_remove(rest0, 0);
            assert(rest@.to_multiset() == rest0.to_multiset().remove(rest0[0]));
        }
        let mut pos: usize = 0;
        loop
            invariant
                pos <= out@.len(),
                out@ == out0,
                sorted_by_key(out@),
                forall|k: int| 0 <= k < pos ==> lex_le((#[trigger] out@[k]).sort_key(), x.sort_key()),
            ensures
                pos <= out0.len(),
                out@ == out0,
                forall|k: int| 0 <= k < pos ==> lex_le((#[trigger] out0[k]).sort_key(), x.sort_key()),
                pos < out0.len() ==> !lex_le(out0[pos as int].sort_key(), x.sort_key()),
            decreases out@.len() - pos,
        {
            if pos == out.len() {
                break;
            }
            if !out[pos].key_le(&x) {
                break;
            }
            pos = pos + 1;
        }
        proof {
            if (pos as int) < out@.len() {
                lemma_lex_le_total(out@[pos as int].sort_key(), x.sort_key());
                assert(lex_le(x.sort_key(), out@[pos as int].sort_key()));
            }
        }
        let ghost xkey = x.sort_key();
        out.insert(pos, x);
        proof {
            assert(out@ == out0.insert(pos as int, rest0[0]));
            vstd::seq_lib::to_multiset_insert(out0, pos as int, rest0[0]);
            assert(out@.to_multiset() == out0.to_multiset().insert(rest0[0]));
            rest0.to_multiset_ensures();
            assert(rest0.contains(rest0[0]));
            assert(rest0.to_multiset().count(rest0[0]) > 0);
            assert(out@.to_multiset().add(rest@.to_multiset()) =~= out0.to_multiset().add(
                rest0.to_multiset(),
            ));
            assert forall|i: int, j: int| 0 <= i < j < out@.len() implies lex_le(
                (#[trigger] out@[i]).sort_key(),
                (#[trigger] out@[j]).sort_key(),
            ) by {
                let p = pos as int;
                if i < p && j < p {
                    assert(out@[i] == out0[i] && out@[j] == out0[j]);
                } else if i < p && j == p {
                    assert(out@[i] == out0[i] && out@[j].sort_key() == xkey);
                } else if i < p && j > p {
                    assert(out@[i] == out0[i] && out@[j] == out0[j - 1]);
                } else if i == p && j > p {
                    assert(out@[i].sort_key() == xkey && out@[j] == out0[j - 1]);
                    assert(lex_le(xkey, out0[p].sort_key()));
                    if j - 1 > p {
                        lemma_lex_le_trans(xkey, out0[p].sort_key(), out0[j - 1].sort_key());
                    }
                } else {
                    assert(i > p);
                    assert(out@[i] == out0[i - 1] && out@[j] == out0[j - 1]);
                }
            }
        }
    }
}

/// Two sequences sorted by key, holding the same values, with no key
/// repeated, are the same sequence: sorting with unique keys is
/// deterministic.
pub proof fn lemma_sorted_unique<T: LexKeyed>(a: Seq<T>, b: Seq<T>)
    requires
        sorted_by_key(a),
        sorted_by_key(b),
        a.to_multiset() == b.to_multiset(),
        forall|i: int, j: int| 0 <= i < j < a.len() ==> (#[trigger] a[i].sort_key())
            != (#[trigger] a[j].sort_key()),
    ensures
        a == b,
    decreases a.len(),
{
    broadcast use vstd::seq_lib::group_to_multiset_ensures;
    broadcast use vstd::multiset::group_multiset_axioms;

    if a.len() == 0 {
        assert(b.to_multiset().len() == 0);
        assert(a =~= b);
    } else {
        assert(a.to_multiset().len() == a.len());
        assert(b.len() == a.len());
        assert(b.to_multiset().contains(a[0]));
        assert(b.contains(a[0]));
        let k = choose|k: int| 0 <= k < b.len() && b[k] == a[0];
        assert(0 <= k < b.len() && b[k] == a[0]);
        assert(a.to_multiset().contains(b[0]));
        assert(a.contains(b[0]));
        let m = choose|m: int| 0 <= m < a.len() && a[m] == b[0];
        assert(0 <= m < a.len() && a[m] == b[0]);
        // The first elements carry minimal keys on both sides, so they
        // compare both ways and are forced equal by key uniqueness.
        assert(lex_le(b[0].sort_key(), a[0].sort_key())) by {
            if k > 0 {
                assert(lex_le(b[0].sort_key(), b[k].sort_key()));
            } else {
                lemma_lex_le_refl(a[0].sort_key());
            }
        }
        assert(lex_le(a[0].sort_key(), b[0].sort_key())) by {
            if m > 0 {
                assert(lex_le(a[0].sort_key(), a[m].sort_key()));
            } else {
                lemma_lex_le_refl(a[0].sort_key());
            }
        }
        lemma_lex_le_antisym(a[0].sort_key(), b[0].sort_key());
        assert(a[0].sort_key() == b[0].sort_key());
        assert(m == 0) by {
            if m > 0 {
                assert(a[m].sort_key() == b[0].sort_key());
                assert(a[0].sort_key() != a[m].sort_key());
            }
        }
        assert(a[0] == b[0]);
        let a1 = a.remove(0);
        let b1 = b.remove(0);
        assert(a1.to_multiset() == a.to_multiset().remove(a[0]));
        assert(b1.to_multiset() == b.to_multiset().remove(b[0]));
        assert(a1.to_multiset() =~= b1.to_multiset());
        assert(sorted_by_key(a1)) by {
            assert(forall|i: int| 0 <= i < a1.len() ==> a1[i] == a[i + 1]);
        }
        assert(sorted_by_key(b1)) by {
            assert(forall|i: int| 0 <= i < b1.len() ==> b1[i] == b[i + 1]);
        }
        assert(forall|i: int, j: int| 0 <= i < j < a1.len() ==> (#[trigger] a1[i].sort_key())
            != (#[trigger] a1[j].sort_key())) by {
            assert(forall|i: int| 0 <= i < a1.len() ==> a1[i] == a[i + 1]);
        }
        lemma_sorted_unique(a1, b1);
        assert(a =~= b) by {
            assert(forall|i: int| 1 <= i < a.len() ==> a[i] == a1[i - 1] && b[i] == b1[i - 1]);
        }
    }
}

} // verus!
