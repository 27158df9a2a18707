//! Append-only construction of a batch from pre-sorted, pre-summed
//! tuples.  The unsorted path lives on `FileZSet::from_tuples`, which
//! consolidates arbitrary input before driving it through this builder.

use vstd::pervasive::VecAdditionalExecFns;
use vstd::prelude::*;

use crate::batch::FileZSet;
use crate::entries::{canonical, lemma_weight_in_push, weight_in, zip_entries};
use crate::layer::ColumnLayer;

verus! {

/// Accumulated weight of one key over parallel key and running-sum
/// columns; the wide sums keep intermediate totals exact while arbitrary
/// input is consolidated.
pub open spec fn col_weight(keys: Seq<i64>, sums: Seq<i128>, k: i64) -> int
    decreases keys.len(),
{
    if keys.len() == 0 || sums.len() == 0 {
        0
    } else {
        (if keys[0] == k {
            sums[0] as int
        } else {
            0
        }) + col_weight(keys.skip(1), sums.skip(1), k)
    }
}

proof fn lemma_col_weight_at(keys: Seq<i64>, sums: Seq<i128>, j: int)
    requires
        keys.len() == sums.len(),
        forall|a: int, b: int| 0 <= a < b < keys.len() ==> keys[a] < keys[b],
        0 <= j < keys.len(),
    ensures
        col_weight(keys, sums, keys[j]) == sums[j] as int,
    decreases keys.len(),
{
    if j == 0 {
        lemma_col_weight_absent(keys.skip(1), sums.skip(1), keys[0]);
    } else {
        assert(keys[0] != keys[j]);
        lemma_col_weight_at(keys.skip(1), sums.skip(1), j - 1);
        assert(keys.skip(1)[j - 1] == keys[j]);
        assert(sums.skip(1)[j - 1] == sums[j]);
    }
}

proof fn lemma_col_weight_absent(keys: Seq<i64>, sums: Seq<i128>, k: i64)
    requires
        keys.len() == sums.len(),
        forall|a: int| 0 <= a < keys.len() ==> keys[a] != k,
    ensures
        col_weight(keys, sums, k) == 0,
    decreases keys.len(),
{
    if keys.len() > 0 {
        lemma_col_weight_absent(keys.skip(1), sums.skip(1), k);
    }
}

proof fn lemma_col_weight_update(keys: Seq<i64>, sums: Seq<i128>, j: int, w: i128, k: i64)
    requires
        keys.len() == sums.len(),
        0 <= j < keys.len(),
    ensures
        col_weight(keys, sums.update(j, w), k) == col_weight(keys, sums, k) + (if keys[j] == k {
            w - sums[j]
        } else {
            0
        }),
    decreases keys.len(),
{
    if j == 0 {
        assert(sums.update(0, w).skip(1) =~= sums.skip(1));
    } else {
        assert(sums.update(j, w).skip(1) =~= sums.skip(1).update(j - 1, w));
        lemma_col_weight_update(keys.skip(1), sums.skip(1), j - 1, w, k);
        assert(keys.skip(1)[j - 1] == keys[j]);
        assert(sums.skip(1)[j - 1] == sums[j]);
    }
}

proof fn lemma_col_weight_insert(keys: Seq<i64>, sums: Seq<i128>, j: int, key: i64, w: i128, k: i64)
    requires
        keys.len() == sums.len(),
        0 <= j <= keys.len(),
    ensures
        col_weight(keys.insert(j, key), sums.insert(j, w), k) == col_weight(keys, sums, k) + (
        if key == k {
            w as int
        } else {
            0
        }),
    decreases keys.len(),
{
    if j == 0 {
        assert(keys.insert(0, key)[0] == key);
        assert(keys.insert(0, key).skip(1) =~= keys);
        assert(sums.insert(0, w).skip(1) =~= sums);
    } else {
        assert(keys.insert(j, key)[0] == keys[0]);
        assert(sums.insert(j, w)[0] == sums[0]);
        assert(keys.insert(j, key).skip(1) =~= keys.skip(1).insert(j - 1, key));
        assert(sums.insert(j, w).skip(1) =~= sums.skip(1).insert(j - 1, w));
        lemma_col_weight_insert(keys.skip(1), sums.skip(1), j - 1, key, w, k);
    }
}

proof fn lemma_col_weight_push(keys: Seq<i64>, sums: Seq<i128>, key: i64, w: i128, k: i64)
    requires
        keys.len() == sums.len(),
    ensures
        col_weight(keys.push(key), sums.push(w), k) == col_weight(keys, sums, k) + (if key == k {
            w as int
        } else {
            0
        }),
{
    assert(keys.push(key) =~= keys.insert(keys.len() as int, key));
    assert(sums.push(w) =~= sums.insert(sums.len() as int, w));
    lemma_col_weight_insert(keys, sums, keys.len() as int, key, w, k);
}

/// Accumulator for a batch under construction.  Unusable after `done`.
pub struct FileZSetBuilder {
    pub keys: Vec<i64>,
    pub diffs: Vec<i64>,
}

impl View for FileZSetBuilder {
    type V = Seq<(i64, i64)>;

    open spec fn view(&self) -> Seq<(i64, i64)> {
        zip_entries(self.keys@, self.diffs@)
    }
}

impl FileZSetBuilder {
    pub open spec fn wf(&self) -> bool {
        &&& self.keys@.len() == self.diffs@.len()
        &&& crate::entries::canonical(self@)
    }

    pub fn new_builder() -> (b: FileZSetBuilder)
        ensures
            b.wf(),
            b@ =~= Seq::<(i64, i64)>::empty(),
    {
        FileZSetBuilder { keys: Vec::new(), diffs: Vec::new() }
    }

    pub fn with_capacity(capacity: usize) -> (b: FileZSetBuilder)
        ensures
            b.wf(),
            b@ =~= Seq::<(i64, i64)>::empty(),
    {
        FileZSetBuilder {
            keys: Vec::with_capacity(capacity),
            diffs: Vec::with_capacity(capacity),
        }
    }

    /// Hint that `additional` more tuples are coming.
    pub fn reserve(&mut self, additional: usize)
        requires
            old(self).wf(),
        ensures
            final(self).wf(),
            final(self)@ == old(self)@,
    {
        self.keys.reserve(additional);
        self.diffs.reserve(additional);
        proof {
            assert(final(self)@ =~= old(self)@);
        }
    }

    /// Append one tuple of the bulk path: the caller hands tuples already
    /// sorted by key, one per key, with no zero weights.
    pub fn push(&mut self, tuple: (i64, i64))
        requires
            old(self).wf(),
            tuple.1 != 0,
            old(self)@.len() > 0 ==> old(self)@.last().0 < tuple.0,
        ensures
            final(self).wf(),
            final(self)@ == old(self)@.push(tuple),
    {
        self.keys.push(tuple.0);
        self.diffs.push(tuple.1);
        proof {
            assert(final(self)@ =~= old(self)@.push(tuple));
        }
    }

    /// Finalize into an immutable batch holding exactly the pushed run.
    pub fn done(self) -> (z: FileZSet)
        requires
            self.wf(),
        ensures
            z.wf(),
            z@ == self@,
    {
        FileZSet { layer: ColumnLayer { keys: self.keys, diffs: self.diffs } }
    }
}

impl FileZSet {
    /// The unsorted-input construction path: buffer arbitrary tuples,
    /// consolidate per key in wide arithmetic, drop zero totals, and emit
    /// the canonical batch.  Only the final per-key totals must fit the
    /// weight type; intermediate sums may not.
    pub fn from_tuples(tuples: Vec<(i64, i64)>) -> (z: FileZSet)
        requires
            forall|k: i64| i64::MIN <= #[trigger] weight_in(tuples@, k) <= i64::MAX,
        ensures
            z.wf(),
            forall|k: i64| z.weight_of(k) == weight_in(tuples@, k),
    {
        let mut keys: Vec<i64> = Vec::new();
        let mut sums: Vec<i128> = Vec::new();
        let n = tuples.len();
        let mut t: usize = 0;
        while t < n
            invariant
                n == tuples@.len(),
                0 <= t <= n,
                keys@.len() == sums@.len(),
                forall|a: int, b: int| 0 <= a < b < keys@.len() ==> keys@[a] < keys@[b],
                forall|k: i64|
                    col_weight(keys@, sums@, k) == weight_in(tuples@.take(t as int), k),
                forall|j: int|
                    0 <= j < sums@.len() ==> -(t * 0x8000_0000_0000_0000) <= (
                    #[trigger] sums@[j]) <= t * 0x7fff_ffff_ffff_ffff,
            decreases n - t,
        {
            let (k, w) = tuples[t];
            assert(tuples@[t as int] == (k, w));
            let ghost pre_keys = keys@;
            let ghost pre_sums = sums@;
            let j = crate::cursor::lower_bound_from(&keys, 0, k);
            assert(t < 0x1_0000_0000_0000_0000) by {
                assert(t < n <= usize::MAX);
            }
            if j < keys.len() && keys[j] == k {
                let cur = sums[j];
                assert(-((t + 1) * 0x8000_0000_0000_0000) <= cur + w <= (t + 1)
                    * 0x7fff_ffff_ffff_ffff);
                let v: i128 = cur + (w as i128);
                sums.set(j, v);
                proof {
                    assert forall|q: i64|
                        col_weight(keys@, sums@, q) == weight_in(
                            tuples@.take(t + 1),
                            q,
                        ) by {
                        lemma_col_weight_update(pre_keys, pre_sums, j as int, v, q);
                        assert(tuples@.take(t + 1) =~= tuples@.take(t as int).push(
                            tuples@[t as int],
                        ));
                        lemma_weight_in_push(tuples@.take(t as int), tuples@[t as int], q);
                    }
                }
            } else {
                assert(forall|a: int| 0 <= a < keys@.len() ==> keys@[a] != k || a >= j);
                keys.insert(j, k);
                sums.insert(j, w as i128);
                proof {
                    assert forall|a: int, b: int|
                        0 <= a < b < keys@.len() implies keys@[a] < keys@[b] by {
                        if a < j && b < j {
                            assert(keys@[a] == pre_keys[a] && keys@[b] == pre_keys[b]);
                        } else if a < j && b == j {
                            assert(keys@[a] == pre_keys[a] && keys@[b] == k);
                        } else if a < j && b > j {
                            assert(keys@[a] == pre_keys[a] && keys@[b] == pre_keys[b - 1]);
                            assert(pre_keys[a] < k);
                            if j < pre_keys.len() {
                                assert(k <= pre_keys[j as int]);
                            }
                        } else if a == j {
                            assert(keys@[a] == k && keys@[b] == pre_keys[b - 1]);
                            assert(k != pre_keys[b - 1]);
                            assert(k <= pre_keys[j as int] <= pre_keys[b - 1]);
                        } else {
                            assert(keys@[a] == pre_keys[a - 1] && keys@[b] == pre_keys[b - 1]);
                        }
                    }
                    assert forall|q: i64|
                        col_weight(keys@, sums@, q) == weight_in(
                            tuples@.take(t + 1),
                            q,
                        ) by {
                        lemma_col_weight_insert(pre_keys, pre_sums, j as int, k, w as i128, q);
                        assert(tuples@.take(t + 1) =~= tuples@.take(t as int).push(
                            tuples@[t as int],
                        ));
                        lemma_weight_in_push(tuples@.take(t as int), tuples@[t as int], q);
                    }
                    assert forall|jj: int|
                        0 <= jj < sums@.len() implies -((t + 1) * 0x8000_0000_0000_0000) <= (
                    #[trigger] sums@[jj]) <= (t + 1) * 0x7fff_ffff_ffff_ffff by {
                        if jj < j {
                            assert(sums@[jj] == pre_sums[jj]);
                        } else if jj > j {
                            assert(sums@[jj] == pre_sums[jj - 1]);
                        }
                    }
                }
            }
            t = t + 1;
        }
        proof {
            assert(tuples@.take(n as int) =~= tuples@);
        }
        let m = keys.len();
        let mut rkeys: Vec<i64> = Vec::new();
        let mut rdiffs: Vec<i64> = Vec::new();
        let mut j: usize = 0;
        while j < m
            invariant
                forall|k: i64| i64::MIN <= #[trigger] weight_in(tuples@, k) <= i64::MAX,
                m == keys@.len(),
                m == sums@.len(),
                forall|a: int, b: int| 0 <= a < b < keys@.len() ==> keys@[a] < keys@[b],
                forall|k: i64| col_weight(keys@, sums@, k) == weight_in(tuples@, k),
                0 <= j <= m,
                rkeys@.len() == rdiffs@.len(),
                canonical(zip_entries(rkeys@, rdiffs@)),
                forall|idx: int|
                    j <= idx < m && rkeys@.len() > 0 ==> rkeys@.last() < keys@[idx],
                forall|k: i64|
                    weight_in(zip_entries(rkeys@, rdiffs@), k) == col_weight(
                        keys@.take(j as int),
                        sums@.take(j as int),
                        k,
                    ),
            decreases m - j,
        {
            let k = keys[j];
            let s = sums[j];
            proof {
                lemma_col_weight_at(keys@, sums@, j as int);
                assert(col_weight(keys@, sums@, k) == weight_in(tuples@, k));
            }
            let ghost pre_entries = zip_entries(rkeys@, rdiffs@);
            if s != 0 {
                proof {
                    assert(i64::MIN <= s <= i64::MAX);
                }
                let d = s as i64;
                rkeys.push(k);
                rdiffs.push(d);
                proof {
                    let ne = zip_entries(rkeys@, rdiffs@);
                    assert(ne =~= pre_entries.push((k, d)));
                    assert(d != 0);
                    assert forall|a: int, b: int| 0 <= a < b < ne.len() implies ne[a].0
                        < ne[b].0 by {
                        if b == ne.len() - 1 {
                            assert(ne[a] == pre_entries[a]);
                            assert(ne[b] == (k, d));
                            if a < pre_entries.len() - 1 {
                                assert(pre_entries[a].0 < pre_entries.last().0);
                            }
                            assert(pre_entries.last().0 == rkeys@[rkeys@.len() - 2]);
                            assert(rkeys@[rkeys@.len() - 2] < keys@[j as int]);
                        } else {
                            assert(ne[a] == pre_entries[a]);
                            assert(ne[b] == pre_entries[b]);
                        }
                    }
                    assert forall|a: int| 0 <= a < ne.len() implies ne[a].1 != 0 by {
                        if a < ne.len() - 1 {
                            assert(ne[a] == pre_entries[a]);
                        }
                    }
                }
            }
            proof {
                assert(keys@.take(j + 1) =~= keys@.take(j as int).push(keys@[j as int]));
                assert(sums@.take(j + 1) =~= sums@.take(j as int).push(sums@[j as int]));
                assert forall|q: i64|
                    weight_in(zip_entries(rkeys@, rdiffs@), q) == col_weight(
                        keys@.take(j + 1),
                        sums@.take(j + 1),
                        q,
                    ) by {
                    lemma_col_weight_push(
                        keys@.take(j as int),
                        sums@.take(j as int),
                        keys@[j as int],
                        sums@[j as int],
                        q,
                    );
                    if s != 0 {
                        lemma_weight_in_push(pre_entries, (k, s as i64), q);
                    }
                }
            }
            j = j + 1;
        }
        proof {
            assert(keys@.take(m as int) =~= keys@);
            assert(sums@.take(m as int) =~= sums@);
        }
        FileZSet { layer: ColumnLayer { keys: rkeys, diffs: rdiffs } }
    }

    /// Construct a batch from arbitrary-order keyed weights.
    pub fn from_keys(keys: Vec<(i64, i64)>) -> (z: FileZSet)
        requires
            forall|k: i64| i64::MIN <= #[trigger] weight_in(keys@, k) <= i64::MAX,
        ensures
            z.wf(),
            forall|k: i64| z.weight_of(k) == weight_in(keys@, k),
    {
        FileZSet::from_tuples(keys)
    }
}

} // verus!
