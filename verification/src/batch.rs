//! A batch of weighted keys without values or times: one immutable
//! canonical run plus the group operations that make batches an abelian
//! group under merging.

use vstd::prelude::*;

use crate::entries::{
    canonical, lemma_masked_canonical, lemma_masked_push, lemma_neg_canonical,
    lemma_weight_in_absent, lemma_weight_in_concat, lemma_weight_in_neg, masked, neg_entries,
    weight_in, zip_entries,
};
use crate::layer::ColumnLayer;

verus! {

/// A batch of weighted tuples without values or times.
///
/// Each tuple has an `i64` key, a unit value, an `i64` weight and a unit
/// time.  A well-formed batch is canonical: keys strictly increase and no
/// stored weight is zero.
#[derive(Debug, Clone)]
pub struct FileZSet {
    pub layer: ColumnLayer,
}

impl View for FileZSet {
    type V = Seq<(i64, i64)>;

    open spec fn view(&self) -> Seq<(i64, i64)> {
        self.layer@
    }
}

impl FileZSet {
    pub open spec fn wf(&self) -> bool {
        self.layer.wf()
    }

    /// Accumulated weight of one key in this batch.
    pub open spec fn weight_of(&self, k: i64) -> int {
        weight_in(self@, k)
    }

    pub fn len(&self) -> (n: usize)
        requires
            self.wf(),
        ensures
            n == self@.len(),
    {
        self.layer.len()
    }

    pub fn is_empty(&self) -> (r: bool)
        requires
            self.wf(),
        ensures
            r == (self@.len() == 0),
    {
        self.layer.is_empty()
    }

    /// Number of distinct keys; equal to the entry count since each key is
    /// stored once.
    pub fn key_count(&self) -> (n: usize)
        requires
            self.wf(),
        ensures
            n == self@.len(),
    {
        self.layer.len()
    }

    pub fn num_entries_shallow(&self) -> (n: usize)
        requires
            self.wf(),
        ensures
            n == self@.len(),
    {
        self.layer.len()
    }

    pub fn num_entries_deep(&self) -> (n: usize)
        requires
            self.wf(),
        ensures
            n == self@.len(),
    {
        self.layer.len()
    }

    /// Lower time bound: the one unit time, so the batch is a complete
    /// snapshot.
    pub fn lower(&self) -> (r: Vec<()>)
        ensures
            r@.len() == 1,
    {
        let mut v: Vec<()> = Vec::new();
        v.push(());
        v
    }

    /// Upper time bound: empty, nothing is still open.
    pub fn upper(&self) -> (r: Vec<()>)
        ensures
            r@.len() == 0,
    {
        Vec::new()
    }

    /// The batch item for a key under the degenerate unit value.
    pub fn item_from(key: i64, _val: ()) -> (r: i64)
        ensures
            r == key,
    {
        key
    }

    /// Times are degenerate here, so there is nothing to recede to.
    pub fn recede_to(&mut self, _frontier: &())
        requires
            old(self).wf(),
        ensures
            final(self).wf(),
            final(self)@ == old(self)@,
    {
    }

    pub fn empty() -> (z: FileZSet)
        ensures
            z.wf(),
            z@ =~= Seq::<(i64, i64)>::empty(),
    {
        FileZSet { layer: ColumnLayer::empty() }
    }

    /// Drop every entry whose key lies below `lower_bound`; used as
    /// time-based garbage collection of old history.
    pub fn truncate_keys_below(&mut self, lower_bound: &i64)
        requires
            old(self).wf(),
        ensures
            final(self).wf(),
            forall|k: i64|
                k >= *lower_bound ==> final(self).weight_of(k) == old(self).weight_of(k),
            forall|k: i64| k < *lower_bound ==> final(self).weight_of(k) == 0,
    {
        let ghost pre = self@;
        let n = self.layer.keys.len();
        let mut cut: usize = 0;
        while cut < n && self.layer.keys[cut] < *lower_bound
            invariant
                self == old(self),
                old(self).wf(),
                pre == self@,
                n == pre.len(),
                n == self.layer.keys@.len(),
                n == self.layer.diffs@.len(),
                0 <= cut <= n,
                forall|i: int| 0 <= i < cut ==> pre[i].0 < *lower_bound,
            decreases n - cut,
        {
            cut = cut + 1;
        }
        assert(forall|i: int|
            cut <= i < n ==> pre[i].0 >= *lower_bound) by {
            if cut < n {
                assert(pre[cut as int].0 >= *lower_bound);
            }
        }
        let mut new_keys: Vec<i64> = Vec::new();
        let mut new_diffs: Vec<i64> = Vec::new();
        let mut i = cut;
        while i < n
            invariant
                self == old(self),
                old(self).wf(),
                pre == self@,
                n == pre.len(),
                n == self.layer.keys@.len(),
                n == self.layer.diffs@.len(),
                cut <= i <= n,
                new_keys@.len() == i - cut,
                new_diffs@.len() == i - cut,
                forall|j: int| 0 <= j < i - cut ==> new_keys@[j] == pre[cut + j].0,
                forall|j: int| 0 <= j < i - cut ==> new_diffs@[j] == pre[cut + j].1,
            decreases n - i,
        {
            new_keys.push(self.layer.keys[i]);
            new_diffs.push(self.layer.diffs[i]);
            i = i + 1;
        }
        self.layer = ColumnLayer { keys: new_keys, diffs: new_diffs };
        assert(self@ =~= pre.skip(cut as int));
        proof {
            assert(pre =~= pre.take(cut as int) + pre.skip(cut as int));
            assert forall|k: i64| k >= *lower_bound implies weight_in(self@, k) == weight_in(
                pre,
                k,
            ) by {
                lemma_weight_in_concat(pre.take(cut as int), pre.skip(cut as int), k);
                lemma_weight_in_absent(pre.take(cut as int), k);
            }
            assert forall|k: i64| k < *lower_bound implies weight_in(self@, k) == 0 by {
                lemma_weight_in_absent(pre.skip(cut as int), k);
            }
        }
    }

    /// Keep only the entries the predicate accepts, preserving order and
    /// canonical form.
    pub fn retain<F: Fn(&i64, &i64) -> bool>(&mut self, retain: F)
        requires
            old(self).wf(),
            forall|k: i64, w: i64| #[trigger] call_requires(retain, (&k, &w)),
        ensures
            final(self).wf(),
            exists|kept: Seq<bool>|
                {
                    &&& kept.len() == old(self)@.len()
                    &&& (forall|i: int|
                        0 <= i < kept.len() ==> call_ensures(
                            retain,
                            (&old(self)@[i].0, &old(self)@[i].1),
                            kept[i],
                        ))
                    &&& final(self)@ == masked(old(self)@, kept)
                },
    {
        let ghost pre = self@;
        let n = self.layer.keys.len();
        let mut new_keys: Vec<i64> = Vec::new();
        let mut new_diffs: Vec<i64> = Vec::new();
        let ghost mut kept: Seq<bool> = Seq::empty();
        let mut i: usize = 0;
        while i < n
            invariant
                self == old(self),
                old(self).wf(),
                pre == self@,
                forall|k: i64, w: i64| #[trigger] call_requires(retain, (&k, &w)),
                n == pre.len(),
                n == self.layer.keys@.len(),
                n == self.layer.diffs@.len(),
                0 <= i <= n,
                kept.len() == i,
                forall|j: int|
                    0 <= j < i ==> call_ensures(retain, (&pre[j].0, &pre[j].1), kept[j]),
                new_keys@.len() == new_diffs@.len(),
                zip_entries(new_keys@, new_diffs@) == masked(pre.take(i as int), kept),
            decreases n - i,
        {
            let k = self.layer.keys[i];
            let w = self.layer.diffs[i];
            assert(pre[i as int] == (k, w));
            let ghost kept_before = kept;
            let keep = retain(&k, &w);
            if keep {
                new_keys.push(k);
                new_diffs.push(w);
            }
            proof {
                kept = kept.push(keep);
                assert(pre.take(i + 1) =~= pre.take(i as int).push(pre[i as int]));
                lemma_masked_push(pre.take(i as int), kept_before, pre[i as int], keep);
                if keep {
                    assert(zip_entries(new_keys@, new_diffs@) =~= masked(
                        pre.take(i as int),
                        kept_before,
                    ).push(pre[i as int]));
                    assert(masked(pre.take(i + 1), kept) =~= masked(
                        pre.take(i as int),
                        kept_before,
                    ).push(pre[i as int]));
                } else {
                    assert(masked(pre.take(i + 1), kept) =~= masked(
                        pre.take(i as int),
                        kept_before,
                    ));
                }
            }
            i = i + 1;
        }
        self.layer = ColumnLayer { keys: new_keys, diffs: new_diffs };
        proof {
            assert(pre.take(n as int) =~= pre);
            lemma_masked_canonical(pre, kept);
            assert(kept.len() == old(self)@.len() && (forall|j: int|
                0 <= j < kept.len() ==> call_ensures(retain, (&old(self)@[j].0, &old(self)@[j].1), kept[j]))
                && final(self)@ == masked(old(self)@, kept));
        }
    }

    /// Negate every weight: the full retraction of this batch's
    /// contribution.
    pub fn neg_by_ref(&self) -> (r: FileZSet)
        requires
            self.wf(),
            forall|i: int| 0 <= i < self@.len() ==> self@[i].1 != i64::MIN,
        ensures
            r.wf(),
            r@ == neg_entries(self@),
            forall|k: i64| r.weight_of(k) == -self.weight_of(k),
    {
        let n = self.layer.keys.len();
        let mut new_keys: Vec<i64> = Vec::new();
        let mut new_diffs: Vec<i64> = Vec::new();
        let mut i: usize = 0;
        while i < n
            invariant
                self.wf(),
                forall|j: int| 0 <= j < self@.len() ==> self@[j].1 != i64::MIN,
                n == self@.len(),
                n == self.layer.keys@.len(),
                n == self.layer.diffs@.len(),
                0 <= i <= n,
                new_keys@.len() == i,
                new_diffs@.len() == i,
                forall|j: int| 0 <= j < i ==> new_keys@[j] == self@[j].0,
                forall|j: int| 0 <= j < i ==> new_diffs@[j] == (-self@[j].1) as i64,
            decreases n - i,
        {
            new_keys.push(self.layer.keys[i]);
            let d = self.layer.diffs[i];
            assert(d == self@[i as int].1);
            new_diffs.push(-d);
            i = i + 1;
        }
        let r = FileZSet { layer: ColumnLayer { keys: new_keys, diffs: new_diffs } };
        proof {
            assert(r@ =~= neg_entries(self@));
            lemma_neg_canonical(self@);
            assert forall|k: i64| r.weight_of(k) == -self.weight_of(k) by {
                lemma_weight_in_neg(self@, k);
            }
        }
        r
    }

    /// Negation consuming the batch.
    pub fn neg(self) -> (r: FileZSet)
        requires
            self.wf(),
            forall|i: int| 0 <= i < self@.len() ==> self@[i].1 != i64::MIN,
        ensures
            r.wf(),
            r@ == neg_entries(self@),
            forall|k: i64| r.weight_of(k) == -self.weight_of(k),
    {
        self.neg_by_ref()
    }
}

impl From<ColumnLayer> for FileZSet {
    /// Wrap a finished layer as a batch.
    fn from(layer: ColumnLayer) -> (r: FileZSet) {
        FileZSet { layer }
    }
}

impl vstd::std_specs::convert::FromSpecImpl<ColumnLayer> for FileZSet {
    open spec fn obeys_from_spec() -> bool {
        true
    }

    open spec fn from_spec(layer: ColumnLayer) -> FileZSet {
        FileZSet { layer }
    }
}

impl PartialEq for FileZSet {
    /// Two batches are equal exactly when they hold the same run of
    /// `(key, weight)` entries in the same order.
    fn eq(&self, other: &FileZSet) -> (r: bool) {
        let kn = self.layer.keys.len();
        let dn = self.layer.diffs.len();
        if kn != other.layer.keys.len() || dn != other.layer.diffs.len() {
            return false;
        }
        let mut i: usize = 0;
        while i < kn
            invariant
                kn == self.layer.keys@.len(),
                kn == other.layer.keys@.len(),
                0 <= i <= kn,
                forall|j: int| 0 <= j < i ==> self.layer.keys@[j] == other.layer.keys@[j],
            decreases kn - i,
        {
            if self.layer.keys[i] != other.layer.keys[i] {
                return false;
            }
            i = i + 1;
        }
        let mut i: usize = 0;
        while i < dn
            invariant
                dn == self.layer.diffs@.len(),
                dn == other.layer.diffs@.len(),
                0 <= i <= dn,
                forall|j: int| 0 <= j < i ==> self.layer.diffs@[j] == other.layer.diffs@[j],
            decreases dn - i,
        {
            if self.layer.diffs[i] != other.layer.diffs[i] {
                return false;
            }
            i = i + 1;
        }
        proof {
            assert(self.layer.keys@ =~= other.layer.keys@);
            assert(self.layer.diffs@ =~= other.layer.diffs@);
        }
        true
    }
}

impl vstd::std_specs::cmp::PartialEqSpecImpl for FileZSet {
    open spec fn obeys_eq_spec() -> bool {
        true
    }

    open spec fn eq_spec(&self, other: &FileZSet) -> bool {
        self.layer.keys@ == other.layer.keys@ && self.layer.diffs@ == other.layer.diffs@
    }
}

} // verus!
