//! Specification-level model of a run of weighted entries.
//!
//! A batch stores `(key, weight)` pairs.  Its mathematical model is a
//! `Seq<(i64, i64)>`; `canonical` says the sequence is a proper run
//! (strictly increasing keys, no zero weights) and `weight_in` gives the
//! accumulated weight of one key in an arbitrary entry sequence.  The
//! lemmas here are the backbone of the merge and builder proofs; the
//! final one states that a canonical run is determined by its weights.

use vstd::prelude::*;

verus! {

/// Strictly increasing keys and no zero weights: the canonical form every
/// finished batch is kept in.
pub open spec fn canonical(s: Seq<(i64, i64)>) -> bool {
    &&& forall|i: int, j: int| 0 <= i < j < s.len() ==> s[i].0 < s[j].0
    &&& forall|i: int| 0 <= i < s.len() ==> s[i].1 != 0
}

/// Total weight attached to key `k` in an arbitrary entry sequence
/// (duplicates allowed and summed).
pub open spec fn weight_in(s: Seq<(i64, i64)>, k: i64) -> int
    decreases s.len(),
{
    if s.len() == 0 {
        0
    } else {
        (if s[0].0 == k {
            s[0].1 as int
        } else {
            0
        }) + weight_in(s.skip(1), k)
    }
}

/// Pair two equal-length columns into one entry sequence.
pub open spec fn zip_entries(keys: Seq<i64>, diffs: Seq<i64>) -> Seq<(i64, i64)> {
    Seq::new(keys.len(), |i: int| (keys[i], diffs[i]))
}

/// The subsequence of `s` selected by the boolean mask `keep`.
pub open spec fn masked(s: Seq<(i64, i64)>, keep: Seq<bool>) -> Seq<(i64, i64)>
    decreases s.len(),
{
    if s.len() == 0 || keep.len() == 0 {
        Seq::empty()
    } else {
        (if keep[0] {
            seq![s[0]]
        } else {
            Seq::empty()
        }) + masked(s.skip(1), keep.skip(1))
    }
}

/// The same entries with every weight negated.
pub open spec fn neg_entries(s: Seq<(i64, i64)>) -> Seq<(i64, i64)> {
    Seq::new(s.len(), |i: int| (s[i].0, (-s[i].1) as i64))
}

pub proof fn lemma_weight_in_concat(a: Seq<(i64, i64)>, b: Seq<(i64, i64)>, k: i64)
    ensures
        weight_in(a + b, k) == weight_in(a, k) + weight_in(b, k),
    decreases a.len(),
{
    if a.len() == 0 {
        assert(a + b =~= b);
    } else {
        assert((a + b).skip(1) =~= a.skip(1) + b);
        lemma_weight_in_concat(a.skip(1), b, k);
    }
}

pub proof fn lemma_weight_in_push(s: Seq<(i64, i64)>, e: (i64, i64), k: i64)
    ensures
        weight_in(s.push(e), k) == weight_in(s, k) + (if e.0 == k {
            e.1 as int
        } else {
            0
        }),
{
    assert(s.push(e) =~= s + seq![e]);
    lemma_weight_in_concat(s, seq![e], k);
    assert(seq![e].skip(1) =~= Seq::<(i64, i64)>::empty());
    assert(weight_in(Seq::<(i64, i64)>::empty(), k) == 0);
    assert(weight_in(seq![e], k) == (if e.0 == k {
        e.1 as int
    } else {
        0
    }) + weight_in(seq![e].skip(1), k));
}

pub proof fn lemma_weight_in_absent(s: Seq<(i64, i64)>, k: i64)
    requires
        forall|i: int| 0 <= i < s.len() ==> s[i].0 != k,
    ensures
        weight_in(s, k) == 0,
    decreases s.len(),
{
    if s.len() > 0 {
        assert(forall|i: int| 0 <= i < s.skip(1).len() ==> s.skip(1)[i].0 != k);
        lemma_weight_in_absent(s.skip(1), k);
    }
}

/// In a canonical run the weight of a present key is exactly its stored weight.
pub proof fn lemma_weight_in_canonical_at(s: Seq<(i64, i64)>, i: int)
    requires
        canonical(s),
        0 <= i < s.len(),
    ensures
        weight_in(s, s[i].0) == s[i].1 as int,
    decreases s.len(),
{
    assert(canonical(s.skip(1)));
    if i == 0 {
        assert(forall|j: int| 0 <= j < s.skip(1).len() ==> s.skip(1)[j].0 != s[0].0);
        lemma_weight_in_absent(s.skip(1), s[0].0);
    } else {
        lemma_weight_in_canonical_at(s.skip(1), i - 1);
        assert(s.skip(1)[i - 1] == s[i]);
        assert(s[0].0 != s[i].0);
    }
}

/// A key smaller than every key of `s` carries weight zero in `s`.
pub proof fn lemma_weight_in_below(s: Seq<(i64, i64)>, k: i64)
    requires
        forall|i: int| 0 <= i < s.len() ==> k < s[i].0,
    ensures
        weight_in(s, k) == 0,
{
    lemma_weight_in_absent(s, k);
}

/// A canonical run is determined by the weight it assigns to each key.
pub proof fn lemma_canonical_unique(s1: Seq<(i64, i64)>, s2: Seq<(i64, i64)>)
    requires
        canonical(s1),
        canonical(s2),
        forall|k: i64| weight_in(s1, k) == weight_in(s2, k),
    ensures
        s1 == s2,
    decreases s1.len() + s2.len(),
{
    if s1.len() == 0 && s2.len() == 0 {
        assert(s1 =~= s2);
    } else if s1.len() == 0 {
        lemma_weight_in_canonical_at(s2, 0);
        assert(weight_in(s1, s2[0].0) == 0);
        assert(false);
    } else if s2.len() == 0 {
        lemma_weight_in_canonical_at(s1, 0);
        assert(weight_in(s2, s1[0].0) == 0);
        assert(false);
    } else {
        lemma_weight_in_canonical_at(s1, 0);
        lemma_weight_in_canonical_at(s2, 0);
        if s1[0].0 < s2[0].0 {
            assert(forall|i: int| 0 <= i < s2.len() ==> s1[0].0 < s2[i].0);
            lemma_weight_in_below(s2, s1[0].0);
            assert(false);
        }
        if s2[0].0 < s1[0].0 {
            assert(forall|i: int| 0 <= i < s1.len() ==> s2[0].0 < s1[i].0);
            lemma_weight_in_below(s1, s2[0].0);
            assert(false);
        }
        assert(s1[0].0 == s2[0].0);
        assert(s1[0].1 == s2[0].1);
        assert(canonical(s1.skip(1)));
        assert(canonical(s2.skip(1)));
        assert forall|k: i64| weight_in(s1.skip(1), k) == weight_in(s2.skip(1), k) by {
            assert(weight_in(s1, k) == weight_in(s2, k));
        }
        lemma_canonical_unique(s1.skip(1), s2.skip(1));
        assert(s1 =~= seq![s1[0]] + s1.skip(1));
        assert(s2 =~= seq![s2[0]] + s2.skip(1));
    }
}

/// No pair of equal keys across the two runs sums outside the weight type.
pub open spec fn sums_fit(a: Seq<(i64, i64)>, b: Seq<(i64, i64)>) -> bool {
    forall|i: int, j: int|
        #![trigger a[i], b[j]]
        0 <= i < a.len() && 0 <= j < b.len() && a[i].0 == b[j].0 ==> i64::MIN <= a[i].1 + b[j].1
            <= i64::MAX
}

/// The entries satisfying a predicate, in their original order.
pub open spec fn filtered(s: Seq<(i64, i64)>, p: spec_fn((i64, i64)) -> bool) -> Seq<(i64, i64)>
    decreases s.len(),
{
    if s.len() == 0 {
        Seq::empty()
    } else {
        (if p(s[0]) {
            seq![s[0]]
        } else {
            Seq::empty()
        }) + filtered(s.skip(1), p)
    }
}

/// A mask that follows a predicate pointwise selects exactly the entries
/// satisfying it.  Together with the contract of `FileZSet::retain` this
/// says: retaining with a predicate that computes `p` leaves exactly the
/// entries on which `p` holds, in their original order.
pub proof fn lemma_masked_is_filtered(
    s: Seq<(i64, i64)>,
    keep: Seq<bool>,
    p: spec_fn((i64, i64)) -> bool,
)
    requires
        keep.len() == s.len(),
        forall|i: int| 0 <= i < s.len() ==> keep[i] == p(s[i]),
    ensures
        masked(s, keep) == filtered(s, p),
    decreases s.len(),
{
    if s.len() == 0 {
        assert(masked(s, keep) =~= filtered(s, p));
    } else {
        assert(forall|i: int| 0 <= i < s.skip(1).len() ==> keep.skip(1)[i] == p(s.skip(1)[i]));
        lemma_masked_is_filtered(s.skip(1), keep.skip(1), p);
    }
}

/// An all-true mask keeps the sequence whole.
pub proof fn lemma_masked_all(s: Seq<(i64, i64)>, keep: Seq<bool>)
    requires
        s.len() == keep.len(),
        forall|i: int| 0 <= i < keep.len() ==> keep[i],
    ensures
        masked(s, keep) == s,
    decreases s.len(),
{
    if s.len() == 0 {
        assert(masked(s, keep) =~= s);
    } else {
        lemma_masked_all(s.skip(1), keep.skip(1));
        assert(masked(s, keep) =~= s);
    }
}

pub proof fn lemma_weight_in_neg(s: Seq<(i64, i64)>, k: i64)
    requires
        forall|i: int| 0 <= i < s.len() ==> s[i].1 != i64::MIN,
    ensures
        weight_in(neg_entries(s), k) == -weight_in(s, k),
    decreases s.len(),
{
    if s.len() == 0 {
        assert(neg_entries(s) =~= Seq::<(i64, i64)>::empty());
    } else {
        assert(neg_entries(s).skip(1) =~= neg_entries(s.skip(1)));
        lemma_weight_in_neg(s.skip(1), k);
    }
}

pub proof fn lemma_neg_canonical(s: Seq<(i64, i64)>)
    requires
        canonical(s),
        forall|i: int| 0 <= i < s.len() ==> s[i].1 != i64::MIN,
    ensures
        canonical(neg_entries(s)),
{
}

pub proof fn lemma_masked_push(s: Seq<(i64, i64)>, keep: Seq<bool>, e: (i64, i64), b: bool)
    requires
        s.len() == keep.len(),
    ensures
        masked(s.push(e), keep.push(b)) == masked(s, keep) + (if b {
            seq![e]
        } else {
            Seq::<(i64, i64)>::empty()
        }),
    decreases s.len(),
{
    if s.len() == 0 {
        let sp = s.push(e);
        let kp = keep.push(b);
        assert(sp.len() == 1 && kp.len() == 1);
        assert(sp[0] == e && kp[0] == b);
        assert(sp.skip(1) =~= Seq::<(i64, i64)>::empty());
        assert(kp.skip(1) =~= Seq::<bool>::empty());
        assert(masked(sp.skip(1), kp.skip(1)) =~= Seq::<(i64, i64)>::empty());
        assert(masked(s, keep) =~= Seq::<(i64, i64)>::empty());
        if b {
            assert(masked(sp, kp) =~= seq![e]);
            assert(masked(s, keep) + seq![e] =~= seq![e]);
        } else {
            assert(masked(sp, kp) =~= Seq::<(i64, i64)>::empty());
            assert(masked(s, keep) + Seq::<(i64, i64)>::empty() =~= Seq::<(i64, i64)>::empty());
        }
    } else {
        assert(s.push(e).skip(1) =~= s.skip(1).push(e));
        assert(keep.push(b).skip(1) =~= keep.skip(1).push(b));
        lemma_masked_push(s.skip(1), keep.skip(1), e, b);
        assert(masked(s.push(e), keep.push(b)) =~= masked(s, keep) + (if b {
            seq![e]
        } else {
            Seq::<(i64, i64)>::empty()
        }));
    }
}

/// Every key of the masked subsequence lies strictly above any bound that
/// bounds all of `s` from below.
pub proof fn lemma_masked_keys_above(s: Seq<(i64, i64)>, keep: Seq<bool>, b: i64)
    requires
        forall|i: int| 0 <= i < s.len() ==> b < s[i].0,
    ensures
        forall|j: int| 0 <= j < masked(s, keep).len() ==> b < masked(s, keep)[j].0,
    decreases s.len(),
{
    if s.len() != 0 && keep.len() != 0 {
        assert(forall|i: int| 0 <= i < s.skip(1).len() ==> b < s.skip(1)[i].0);
        lemma_masked_keys_above(s.skip(1), keep.skip(1), b);
        let m = masked(s, keep);
        let mt = masked(s.skip(1), keep.skip(1));
        if keep[0] {
            assert(m =~= seq![s[0]] + mt);
            assert forall|j: int| 0 <= j < m.len() implies b < m[j].0 by {
                if j > 0 {
                    assert(m[j] == mt[j - 1]);
                }
            }
        } else {
            assert(m =~= mt);
        }
    } else {
        assert(masked(s, keep) =~= Seq::<(i64, i64)>::empty());
    }
}

/// Masking preserves canonical form.
pub proof fn lemma_masked_canonical(s: Seq<(i64, i64)>, keep: Seq<bool>)
    requires
        canonical(s),
    ensures
        canonical(masked(s, keep)),
    decreases s.len(),
{
    if s.len() != 0 && keep.len() != 0 {
        assert(canonical(s.skip(1)));
        lemma_masked_canonical(s.skip(1), keep.skip(1));
        assert(forall|i: int| 0 <= i < s.skip(1).len() ==> s[0].0 < s.skip(1)[i].0);
        lemma_masked_keys_above(s.skip(1), keep.skip(1), s[0].0);
        let m = masked(s, keep);
        let mt = masked(s.skip(1), keep.skip(1));
        if keep[0] {
            assert(m =~= seq![s[0]] + mt);
            assert(m[0] == s[0]);
            assert forall|i: int, j: int| 0 <= i < j < m.len() implies m[i].0 < m[j].0 by {
                assert(m[j] == mt[j - 1]);
                if i > 0 {
                    assert(m[i] == mt[i - 1]);
                }
            }
            assert forall|i: int| 0 <= i < m.len() implies m[i].1 != 0 by {
                if i > 0 {
                    assert(m[i] == mt[i - 1]);
                }
            }
        } else {
            assert(m =~= mt);
        }
    }
}

/// The weight of `k` in a masked sequence grows by the kept entry's weight
/// exactly when the entry carries `k` and is kept.
pub proof fn lemma_masked_weight_push(
    s: Seq<(i64, i64)>,
    keep: Seq<bool>,
    e: (i64, i64),
    b: bool,
    k: i64,
)
    requires
        s.len() == keep.len(),
    ensures
        weight_in(masked(s.push(e), keep.push(b)), k) == weight_in(masked(s, keep), k) + (if b
            && e.0 == k {
            e.1 as int
        } else {
            0
        }),
{
    lemma_masked_push(s, keep, e, b);
    if b {
        lemma_weight_in_concat(masked(s, keep), seq![e], k);
        assert(seq![e].skip(1) =~= Seq::<(i64, i64)>::empty());
        assert(weight_in(Seq::<(i64, i64)>::empty(), k) == 0);
        assert(weight_in(seq![e], k) == (if e.0 == k {
            e.1 as int
        } else {
            0
        }) + weight_in(seq![e].skip(1), k));
    } else {
        assert(masked(s.push(e), keep.push(b)) =~= masked(s, keep));
    }
}

} // verus!
