//! Resumable, fuel-bounded merging of two batches.
//!
//! The merge is a merge-join over the two sorted runs: the smaller key is
//! copied, equal keys advance both sides with weights summed, and zero
//! sums are elided.  `work` performs a bounded number of merge steps per
//! call (at least one while work remains, even under a zero or negative
//! budget) so a scheduler can spread one large merge over many turns.  An
//! optional key filter drops entries from either input during the merge.
//!
//! The merger records the decisions of the filter in ghost state, so the
//! final contract of `done` pins the result: for every key, its weight is
//! the sum of its weights in the kept parts of the two sources, and with
//! no filtering it is exactly the sum over the sources.

use vstd::prelude::*;

use crate::batch::FileZSet;
use crate::builder::FileZSetBuilder;
use crate::entries::{
    canonical, lemma_masked_all, lemma_masked_weight_push, lemma_weight_in_push, masked, sums_fit,
    weight_in,
};

verus! {

/// State for an in-progress merge.
pub struct FileZSetMerger {
    /// The result being assembled.
    pub result: FileZSetBuilder,
    /// Entries of the first source consumed so far.
    pub pos1: usize,
    /// Entries of the second source consumed so far.
    pub pos2: usize,
    /// The run of the first source, fixed at creation.
    pub src1: Ghost<Seq<(i64, i64)>>,
    /// The run of the second source, fixed at creation.
    pub src2: Ghost<Seq<(i64, i64)>>,
    /// Filter decision for each consumed entry of the first source.
    pub kept1: Ghost<Seq<bool>>,
    /// Filter decision for each consumed entry of the second source.
    pub kept2: Ghost<Seq<bool>>,
}

impl FileZSetMerger {
    /// The kept part of the consumed prefix of the first source.
    pub open spec fn consumed1(&self) -> Seq<(i64, i64)> {
        masked(self.src1@.take(self.pos1 as int), self.kept1@)
    }

    /// The kept part of the consumed prefix of the second source.
    pub open spec fn consumed2(&self) -> Seq<(i64, i64)> {
        masked(self.src2@.take(self.pos2 as int), self.kept2@)
    }

    /// The merge invariant: the assembled run is canonical, carries for
    /// every key the summed weight of the kept consumed entries, and lies
    /// strictly below everything not yet consumed.
    pub open spec fn wf(&self) -> bool {
        &&& canonical(self.src1@)
        &&& canonical(self.src2@)
        &&& self.pos1 <= self.src1@.len()
        &&& self.pos2 <= self.src2@.len()
        &&& self.kept1@.len() == self.pos1
        &&& self.kept2@.len() == self.pos2
        &&& self.result.wf()
        &&& forall|k: i64|
            weight_in(self.result@, k) == weight_in(self.consumed1(), k) + weight_in(
                self.consumed2(),
                k,
            )
        &&& forall|t: int|
            self.pos1 <= t < self.src1@.len() && self.result@.len() > 0
                ==> self.result@.last().0 < self.src1@[t].0
        &&& forall|t: int|
            self.pos2 <= t < self.src2@.len() && self.result@.len() > 0
                ==> self.result@.last().0 < self.src2@[t].0
    }

    /// Both inputs are exhausted.
    pub open spec fn is_done(&self) -> bool {
        self.pos1 == self.src1@.len() && self.pos2 == self.src2@.len()
    }

    /// No consumed entry was dropped by a key filter.
    pub open spec fn all_kept(&self) -> bool {
        &&& forall|i: int| 0 <= i < self.kept1@.len() ==> self.kept1@[i]
        &&& forall|i: int| 0 <= i < self.kept2@.len() ==> self.kept2@[i]
    }

    pub fn new_merger(batch1: &FileZSet, batch2: &FileZSet) -> (m: FileZSetMerger)
        requires
            batch1.wf(),
            batch2.wf(),
        ensures
            m.wf(),
            m.src1@ == batch1@,
            m.src2@ == batch2@,
            m.pos1 == 0,
            m.pos2 == 0,
            m.result@.len() == 0,
            m.all_kept(),
    {
        let m = FileZSetMerger {
            result: FileZSetBuilder::new_builder(),
            pos1: 0,
            pos2: 0,
            src1: Ghost(batch1@),
            src2: Ghost(batch2@),
            kept1: Ghost(Seq::empty()),
            kept2: Ghost(Seq::empty()),
        };
        proof {
            assert(m.src1@.take(0) =~= Seq::<(i64, i64)>::empty());
            assert(m.src2@.take(0) =~= Seq::<(i64, i64)>::empty());
            assert(m.consumed1() =~= Seq::<(i64, i64)>::empty());
            assert(m.consumed2() =~= Seq::<(i64, i64)>::empty());
        }
        m
    }

    /// Consume one entry of the first source, copying it unless the
    /// filter drops it.  Correct only while that entry's key is no larger
    /// than anything remaining in the second source.
    fn step_copy1<F: Fn(&i64) -> bool>(&mut self, source1: &FileZSet, key_filter: &F)
        requires
            old(self).wf(),
            source1.wf(),
            source1@ == old(self).src1@,
            old(self).pos1 < old(self).src1@.len(),
            old(self).pos2 < old(self).src2@.len() ==> old(self).src1@[old(self).pos1 as int].0
                < old(self).src2@[old(self).pos2 as int].0,
            forall|k: i64| #[trigger] call_requires(key_filter, (&k,)),
        ensures
            final(self).wf(),
            final(self).src1@ == old(self).src1@,
            final(self).src2@ == old(self).src2@,
            final(self).pos1 == old(self).pos1 + 1,
            final(self).pos2 == old(self).pos2,
            final(self).kept2@ == old(self).kept2@,
            final(self).kept1@ == old(self).kept1@.push(final(self).kept1@.last()),
            call_ensures(
                key_filter,
                (&old(self).src1@[old(self).pos1 as int].0,),
                final(self).kept1@.last(),
            ),
    {
        let ghost pre = *old(self);
        let ghost p = self.pos1 as int;
        let n = source1.layer.keys.len();
        assert(self.pos1 < n);
        let k1 = source1.layer.keys[self.pos1];
        let w1 = source1.layer.diffs[self.pos1];
        assert(self.src1@[p] == (k1, w1));
        assert(w1 != 0);
        let keep = key_filter(&k1);
        if keep {
            assert(self.result@.len() > 0 ==> self.result@.last().0 < k1);
            self.result.push((k1, w1));
        }
        self.pos1 = self.pos1 + 1;
        self.kept1 = Ghost(self.kept1@.push(keep));
        proof {
            assert(self.src1@.take(p + 1) =~= pre.src1@.take(p).push(pre.src1@[p]));
            assert(self.consumed2() == pre.consumed2());
            assert forall|k: i64|
                weight_in(self.result@, k) == weight_in(self.consumed1(), k) + weight_in(
                    self.consumed2(),
                    k,
                ) by {
                lemma_masked_weight_push(pre.src1@.take(p), pre.kept1@, pre.src1@[p], keep, k);
                if keep {
                    lemma_weight_in_push(pre.result@, (k1, w1), k);
                }
            }
            if keep {
                assert(self.result@.last() == (k1, w1));
                assert forall|t: int|
                    self.pos1 <= t < self.src1@.len() && self.result@.len() > 0 implies self
                    .result@.last().0 < self.src1@[t].0 by {
                    assert(self.src1@[p].0 < self.src1@[t].0);
                }
                assert forall|t: int|
                    self.pos2 <= t < self.src2@.len() && self.result@.len() > 0 implies self
                    .result@.last().0 < self.src2@[t].0 by {
                    assert(self.src2@[self.pos2 as int].0 <= self.src2@[t].0);
                }
            }
        }
    }

    /// Consume one entry of the second source, symmetric to `step_copy1`.
    fn step_copy2<F: Fn(&i64) -> bool>(&mut self, source2: &FileZSet, key_filter: &F)
        requires
            old(self).wf(),
            source2.wf(),
            source2@ == old(self).src2@,
            old(self).pos2 < old(self).src2@.len(),
            old(self).pos1 < old(self).src1@.len() ==> old(self).src2@[old(self).pos2 as int].0
                < old(self).src1@[old(self).pos1 as int].0,
            forall|k: i64| #[trigger] call_requires(key_filter, (&k,)),
        ensures
            final(self).wf(),
            final(self).src1@ == old(self).src1@,
            final(self).src2@ == old(self).src2@,
            final(self).pos2 == old(self).pos2 + 1,
            final(self).pos1 == old(self).pos1,
            final(self).kept1@ == old(self).kept1@,
            final(self).kept2@ == old(self).kept2@.push(final(self).kept2@.last()),
            call_ensures(
                key_filter,
                (&old(self).src2@[old(self).pos2 as int].0,),
                final(self).kept2@.last(),
            ),
    {
        let ghost pre = *old(self);
        let ghost p = self.pos2 as int;
        let n = source2.layer.keys.len();
        assert(self.pos2 < n);
        let k2 = source2.layer.keys[self.pos2];
        let w2 = source2.layer.diffs[self.pos2];
        assert(self.src2@[p] == (k2, w2));
        assert(w2 != 0);
        let keep = key_filter(&k2);
        if keep {
            assert(self.result@.len() > 0 ==> self.result@.last().0 < k2);
            self.result.push((k2, w2));
        }
        self.pos2 = self.pos2 + 1;
        self.kept2 = Ghost(self.kept2@.push(keep));
        proof {
            assert(self.src2@.take(p + 1) =~= pre.src2@.take(p).push(pre.src2@[p]));
            assert(self.consumed1() == pre.consumed1());
            assert forall|k: i64|
                weight_in(self.result@, k) == weight_in(self.consumed1(), k) + weight_in(
                    self.consumed2(),
                    k,
                ) by {
                lemma_masked_weight_push(pre.src2@.take(p), pre.kept2@, pre.src2@[p], keep, k);
                if keep {
                    lemma_weight_in_push(pre.result@, (k2, w2), k);
                }
            }
            if keep {
                assert(self.result@.last() == (k2, w2));
                assert forall|t: int|
                    self.pos2 <= t < self.src2@.len() && self.result@.len() > 0 implies self
                    .result@.last().0 < self.src2@[t].0 by {
                    assert(self.src2@[p].0 < self.src2@[t].0);
                }
                assert forall|t: int|
                    self.pos1 <= t < self.src1@.len() && self.result@.len() > 0 implies self
                    .result@.last().0 < self.src1@[t].0 by {
                    assert(self.src1@[self.pos1 as int].0 <= self.src1@[t].0);
                }
            }
        }
    }

    /// Consume one entry of each source carrying the same key; the
    /// weights are summed and a zero sum is elided.
    fn step_equal<F: Fn(&i64) -> bool>(
        &mut self,
        source1: &FileZSet,
        source2: &FileZSet,
        key_filter: &F,
    )
        requires
            old(self).wf(),
            source1.wf(),
            source2.wf(),
            source1@ == old(self).src1@,
            source2@ == old(self).src2@,
            sums_fit(old(self).src1@, old(self).src2@),
            old(self).pos1 < old(self).src1@.len(),
            old(self).pos2 < old(self).src2@.len(),
            old(self).src1@[old(self).pos1 as int].0 == old(self).src2@[old(self).pos2 as int].0,
            forall|k: i64| #[trigger] call_requires(key_filter, (&k,)),
        ensures
            final(self).wf(),
            final(self).src1@ == old(self).src1@,
            final(self).src2@ == old(self).src2@,
            final(self).pos1 == old(self).pos1 + 1,
            final(self).pos2 == old(self).pos2 + 1,
            final(self).kept1@ == old(self).kept1@.push(final(self).kept1@.last()),
            final(self).kept2@ == old(self).kept2@.push(final(self).kept2@.last()),
            final(self).kept1@.last() == final(self).kept2@.last(),
            call_ensures(
                key_filter,
                (&old(self).src1@[old(self).pos1 as int].0,),
                final(self).kept1@.last(),
            ),
    {
        let ghost pre = *old(self);
        let ghost p1 = self.pos1 as int;
        let ghost p2 = self.pos2 as int;
        let n1 = source1.layer.keys.len();
        let n2 = source2.layer.keys.len();
        assert(self.pos1 < n1 && self.pos2 < n2);
        let k1 = source1.layer.keys[self.pos1];
        let w1 = source1.layer.diffs[self.pos1];
        let w2 = source2.layer.diffs[self.pos2];
        assert(self.src1@[p1] == (k1, w1));
        assert(self.src2@[p2] == (k1, w2));
        assert(i64::MIN <= self.src1@[p1].1 + self.src2@[p2].1 <= i64::MAX);
        let w = w1 + w2;
        let keep = key_filter(&k1);
        if keep && w != 0 {
            assert(self.result@.len() > 0 ==> self.result@.last().0 < k1);
            self.result.push((k1, w));
        }
        self.pos1 = self.pos1 + 1;
        self.pos2 = self.pos2 + 1;
        self.kept1 = Ghost(self.kept1@.push(keep));
        self.kept2 = Ghost(self.kept2@.push(keep));
        proof {
            assert(self.src1@.take(p1 + 1) =~= pre.src1@.take(p1).push(pre.src1@[p1]));
            assert(self.src2@.take(p2 + 1) =~= pre.src2@.take(p2).push(pre.src2@[p2]));
            assert forall|k: i64|
                weight_in(self.result@, k) == weight_in(self.consumed1(), k) + weight_in(
                    self.consumed2(),
                    k,
                ) by {
                lemma_masked_weight_push(pre.src1@.take(p1), pre.kept1@, pre.src1@[p1], keep, k);
                lemma_masked_weight_push(pre.src2@.take(p2), pre.kept2@, pre.src2@[p2], keep, k);
                if keep && w != 0 {
                    lemma_weight_in_push(pre.result@, (k1, w), k);
                }
            }
            if keep && w != 0 {
                assert(self.result@.last() == (k1, w));
                assert forall|t: int|
                    self.pos1 <= t < self.src1@.len() && self.result@.len() > 0 implies self
                    .result@.last().0 < self.src1@[t].0 by {
                    assert(self.src1@[p1].0 < self.src1@[t].0);
                }
                assert forall|t: int|
                    self.pos2 <= t < self.src2@.len() && self.result@.len() > 0 implies self
                    .result@.last().0 < self.src2@[t].0 by {
                    assert(self.src2@[p2].0 < self.src2@[t].0);
                }
            }
        }
    }

    /// One merge step: whichever source holds the smaller key advances;
    /// equal keys advance both with weights summed.
    fn merge_step<F: Fn(&i64) -> bool>(
        &mut self,
        source1: &FileZSet,
        source2: &FileZSet,
        key_filter: &F,
    )
        requires
            old(self).wf(),
            source1.wf(),
            source2.wf(),
            source1@ == old(self).src1@,
            source2@ == old(self).src2@,
            sums_fit(old(self).src1@, old(self).src2@),
            !old(self).is_done(),
            forall|k: i64| #[trigger] call_requires(key_filter, (&k,)),
        ensures
            final(self).wf(),
            final(self).src1@ == old(self).src1@,
            final(self).src2@ == old(self).src2@,
            old(self).pos1 <= final(self).pos1 <= old(self).pos1 + 1,
            old(self).pos2 <= final(self).pos2 <= old(self).pos2 + 1,
            final(self).pos1 + final(self).pos2 > old(self).pos1 + old(self).pos2,
            forall|i: int|
                0 <= i < old(self).kept1@.len() ==> final(self).kept1@[i] == old(self).kept1@[i],
            forall|i: int|
                0 <= i < old(self).kept2@.len() ==> final(self).kept2@[i] == old(self).kept2@[i],
            forall|i: int|
                old(self).pos1 <= i < final(self).pos1 ==> call_ensures(
                    key_filter,
                    (&old(self).src1@[i].0,),
                    final(self).kept1@[i],
                ),
            forall|i: int|
                old(self).pos2 <= i < final(self).pos2 ==> call_ensures(
                    key_filter,
                    (&old(self).src2@[i].0,),
                    final(self).kept2@[i],
                ),
    {
        let n1 = source1.layer.keys.len();
        let n2 = source2.layer.keys.len();
        if self.pos1 < n1 && self.pos2 < n2 {
            let k1 = source1.layer.keys[self.pos1];
            let k2 = source2.layer.keys[self.pos2];
            if k1 < k2 {
                self.step_copy1(source1, key_filter);
            } else if k2 < k1 {
                self.step_copy2(source2, key_filter);
            } else {
                self.step_equal(source1, source2, key_filter);
            }
        } else if self.pos1 < n1 {
            self.step_copy1(source1, key_filter);
        } else {
            self.step_copy2(source2, key_filter);
        }
    }

    /// Perform merge steps, at least one while input remains even under a
    /// zero or negative budget, and no more than `max(fuel, 1)`;
    /// decrements `fuel` by the steps actually performed.  Entries whose
    /// key the filter rejects are dropped from the result.
    pub fn work_with_filter<F: Fn(&i64) -> bool>(
        &mut self,
        source1: &FileZSet,
        source2: &FileZSet,
        key_filter: &F,
        fuel: &mut i64,
    )
        requires
            old(self).wf(),
            source1.wf(),
            source2.wf(),
            source1@ == old(self).src1@,
            source2@ == old(self).src2@,
            sums_fit(old(self).src1@, old(self).src2@),
            forall|k: i64| #[trigger] call_requires(key_filter, (&k,)),
            *old(fuel) > i64::MIN,
        ensures
            final(self).wf(),
            final(self).src1@ == old(self).src1@,
            final(self).src2@ == old(self).src2@,
            final(self).pos1 >= old(self).pos1,
            final(self).pos2 >= old(self).pos2,
            forall|i: int|
                0 <= i < old(self).kept1@.len() ==> final(self).kept1@[i] == old(self).kept1@[i],
            forall|i: int|
                0 <= i < old(self).kept2@.len() ==> final(self).kept2@[i] == old(self).kept2@[i],
            forall|i: int|
                old(self).pos1 <= i < final(self).pos1 ==> call_ensures(
                    key_filter,
                    (&old(self).src1@[i].0,),
                    final(self).kept1@[i],
                ),
            forall|i: int|
                old(self).pos2 <= i < final(self).pos2 ==> call_ensures(
                    key_filter,
                    (&old(self).src2@[i].0,),
                    final(self).kept2@[i],
                ),
            !old(self).is_done() ==> final(self).pos1 + final(self).pos2 > old(self).pos1 + old(
                self,
            ).pos2,
            *final(fuel) <= *old(fuel),
            *old(fuel) - *final(fuel) <= (if *old(fuel) < 1 {
                1int
            } else {
                *old(fuel) as int
            }),
            *old(fuel) - *final(fuel) <= (final(self).pos1 - old(self).pos1) + (final(self).pos2
                - old(self).pos2),
            final(self).is_done() || *old(fuel) - *final(fuel) == (if *old(fuel) < 1 {
                1int
            } else {
                *old(fuel) as int
            }),
            *old(fuel) >= (old(self).src1@.len() - old(self).pos1) + (old(self).src2@.len() - old(
                self,
            ).pos2) ==> final(self).is_done(),
    {
        let n1 = source1.layer.keys.len();
        let n2 = source2.layer.keys.len();
        let budget: i64 = if *fuel < 1 {
            1
        } else {
            *fuel
        };
        let mut steps: i64 = 0;
        while steps < budget && !(self.pos1 == n1 && self.pos2 == n2)
            invariant
                self.wf(),
                source1.wf(),
                source2.wf(),
                source1@ == self.src1@,
                source2@ == self.src2@,
                self.src1@ == old(self).src1@,
                self.src2@ == old(self).src2@,
                sums_fit(self.src1@, self.src2@),
                forall|k: i64| #[trigger] call_requires(key_filter, (&k,)),
                n1 == self.src1@.len(),
                n2 == self.src2@.len(),
                budget == (if *old(fuel) < 1 {
                    1int
                } else {
                    *old(fuel) as int
                }),
                0 <= steps <= budget,
                self.pos1 >= old(self).pos1,
                self.pos2 >= old(self).pos2,
                forall|i: int|
                    0 <= i < old(self).pos1 ==> self.kept1@[i] == old(self).kept1@[i],
                forall|i: int|
                    0 <= i < old(self).pos2 ==> self.kept2@[i] == old(self).kept2@[i],
                forall|i: int|
                    old(self).pos1 <= i < self.pos1 ==> call_ensures(
                        key_filter,
                        (&old(self).src1@[i].0,),
                        self.kept1@[i],
                    ),
                forall|i: int|
                    old(self).pos2 <= i < self.pos2 ==> call_ensures(
                        key_filter,
                        (&old(self).src2@[i].0,),
                        self.kept2@[i],
                    ),
                steps <= (self.pos1 - old(self).pos1) + (self.pos2 - old(self).pos2),
                steps == 0 ==> self.pos1 == old(self).pos1 && self.pos2 == old(self).pos2,
                *fuel == *old(fuel),
            decreases budget - steps,
        {
            let ghost prev = *self;
            self.merge_step(source1, source2, key_filter);
            proof {
                assert forall|i: int|
                    old(self).pos1 <= i < self.pos1 implies call_ensures(
                    key_filter,
                    (&old(self).src1@[i].0,),
                    self.kept1@[i],
                ) by {
                    if i < prev.pos1 {
                        assert(self.kept1@[i] == prev.kept1@[i]);
                    }
                }
                assert forall|i: int|
                    old(self).pos2 <= i < self.pos2 implies call_ensures(
                    key_filter,
                    (&old(self).src2@[i].0,),
                    self.kept2@[i],
                ) by {
                    if i < prev.pos2 {
                        assert(self.kept2@[i] == prev.kept2@[i]);
                    }
                }
            }
            steps = steps + 1;
        }
        proof {
            if *old(fuel) >= (self.src1@.len() - old(self).pos1) + (self.src2@.len() - old(
                self,
            ).pos2) && !self.is_done() {
                assert(steps == budget);
                assert(steps <= (self.pos1 - old(self).pos1) + (self.pos2 - old(self).pos2));
                assert((self.pos1 - old(self).pos1) + (self.pos2 - old(self).pos2) <= (
                self.src1@.len() - old(self).pos1) + (self.src2@.len() - old(self).pos2));
                assert(false);
            }
        }
        *fuel = *fuel - steps;
    }

    /// Perform merge steps without a key filter, with the same fuel
    /// accounting as `work_with_filter`.
    pub fn work(&mut self, source1: &FileZSet, source2: &FileZSet, fuel: &mut i64)
        requires
            old(self).wf(),
            source1.wf(),
            source2.wf(),
            source1@ == old(self).src1@,
            source2@ == old(self).src2@,
            sums_fit(old(self).src1@, old(self).src2@),
            *old(fuel) > i64::MIN,
        ensures
            final(self).wf(),
            final(self).src1@ == old(self).src1@,
            final(self).src2@ == old(self).src2@,
            final(self).pos1 >= old(self).pos1,
            final(self).pos2 >= old(self).pos2,
            old(self).all_kept() ==> final(self).all_kept(),
            !old(self).is_done() ==> final(self).pos1 + final(self).pos2 > old(self).pos1 + old(
                self,
            ).pos2,
            *final(fuel) <= *old(fuel),
            *old(fuel) - *final(fuel) <= (if *old(fuel) < 1 {
                1int
            } else {
                *old(fuel) as int
            }),
            final(self).is_done() || *old(fuel) - *final(fuel) == (if *old(fuel) < 1 {
                1int
            } else {
                *old(fuel) as int
            }),
            *old(fuel) >= (old(self).src1@.len() - old(self).pos1) + (old(self).src2@.len() - old(
                self,
            ).pos2) ==> final(self).is_done(),
    {
        let keep_all = |k: &i64| -> (r: bool)
            ensures
                r,
            {
                true
            };
        let ghost pre = *old(self);
        self.work_with_filter(source1, source2, &keep_all, fuel);
        proof {
            if pre.all_kept() {
                assert forall|i: int| 0 <= i < self.kept1@.len() implies self.kept1@[i] by {
                    if i < pre.pos1 {
                        assert(self.kept1@[i] == pre.kept1@[i]);
                    }
                }
                assert forall|i: int| 0 <= i < self.kept2@.len() implies self.kept2@[i] by {
                    if i < pre.pos2 {
                        assert(self.kept2@[i] == pre.kept2@[i]);
                    }
                }
            }
        }
    }

    /// Whether both inputs have been fully consumed; only then may `done`
    /// be called.
    pub fn is_complete(&self, source1: &FileZSet, source2: &FileZSet) -> (r: bool)
        requires
            self.wf(),
            source1.wf(),
            source2.wf(),
            source1@ == self.src1@,
            source2@ == self.src2@,
        ensures
            r == self.is_done(),
    {
        self.pos1 == source1.layer.keys.len() && self.pos2 == source2.layer.keys.len()
    }

    /// Finalize the merge.  For every key the result carries the summed
    /// weight of the kept entries of the two sources; with no filtering,
    /// exactly the sum of the two sources' weights.
    pub fn done(self) -> (z: FileZSet)
        requires
            self.wf(),
            self.is_done(),
        ensures
            z.wf(),
            z@ == self.result@,
            forall|k: i64|
                weight_in(z@, k) == weight_in(masked(self.src1@, self.kept1@), k) + weight_in(
                    masked(self.src2@, self.kept2@),
                    k,
                ),
            self.all_kept() ==> forall|k: i64|
                weight_in(z@, k) == weight_in(self.src1@, k) + weight_in(self.src2@, k),
    {
        proof {
            assert(self.src1@.take(self.pos1 as int) =~= self.src1@);
            assert(self.src2@.take(self.pos2 as int) =~= self.src2@);
            if self.all_kept() {
                lemma_masked_all(self.src1@, self.kept1@);
                lemma_masked_all(self.src2@, self.kept2@);
            }
        }
        self.result.done()
    }
}

impl FileZSet {
    /// Start merging this batch with another; the scheduler then loops
    /// `work` to exhaustion before calling `done`.
    pub fn begin_merge(&self, other: &FileZSet) -> (m: FileZSetMerger)
        requires
            self.wf(),
            other.wf(),
        ensures
            m.wf(),
            m.src1@ == self@,
            m.src2@ == other@,
            m.pos1 == 0,
            m.pos2 == 0,
            m.result@.len() == 0,
            m.all_kept(),
    {
        FileZSetMerger::new_merger(self, other)
    }
}

} // verus!
