//! Group operations on batches: multiset union via a merge run to
//! completion, in consuming and by-reference variants.  Together with
//! negation these make batches an abelian group, which is what lets the
//! surrounding engine compute a delta and later retract it exactly.

use vstd::prelude::*;

use crate::batch::FileZSet;
use crate::entries::sums_fit;

verus! {

impl FileZSet {
    /// Multiset union of two batches: for every key the weights add, and
    /// keys whose sum is zero are elided.
    pub fn add_by_ref(&self, rhs: &FileZSet) -> (r: FileZSet)
        requires
            self.wf(),
            rhs.wf(),
            sums_fit(self@, rhs@),
        ensures
            r.wf(),
            forall|k: i64| r.weight_of(k) == self.weight_of(k) + rhs.weight_of(k),
    {
        let mut m = self.begin_merge(rhs);
        let n1 = self.layer.keys.len();
        let n2 = rhs.layer.keys.len();
        while !(m.pos1 == n1 && m.pos2 == n2)
            invariant
                self.wf(),
                rhs.wf(),
                sums_fit(self@, rhs@),
                m.wf(),
                m.src1@ == self@,
                m.src2@ == rhs@,
                m.all_kept(),
                n1 == self@.len(),
                n2 == rhs@.len(),
            decreases (n1 - m.pos1) + (n2 - m.pos2),
        {
            let mut fuel: i64 = i64::MAX;
            m.work(self, rhs, &mut fuel);
        }
        m.done()
    }

    /// Multiset union consuming both operands.
    pub fn add(self, rhs: FileZSet) -> (r: FileZSet)
        requires
            self.wf(),
            rhs.wf(),
            sums_fit(self@, rhs@),
        ensures
            r.wf(),
            forall|k: i64| r.weight_of(k) == self.weight_of(k) + rhs.weight_of(k),
    {
        self.add_by_ref(&rhs)
    }

    /// Fold another batch into this one.
    pub fn add_assign(&mut self, rhs: FileZSet)
        requires
            old(self).wf(),
            rhs.wf(),
            sums_fit(old(self)@, rhs@),
        ensures
            final(self).wf(),
            forall|k: i64| final(self).weight_of(k) == old(self).weight_of(k) + rhs.weight_of(k),
    {
        let r = self.add_by_ref(&rhs);
        *self = r;
    }

    /// Fold another batch into this one without consuming it.
    pub fn add_assign_by_ref(&mut self, rhs: &FileZSet)
        requires
            old(self).wf(),
            rhs.wf(),
            sums_fit(old(self)@, rhs@),
        ensures
            final(self).wf(),
            forall|k: i64| final(self).weight_of(k) == old(self).weight_of(k) + rhs.weight_of(k),
    {
        let r = self.add_by_ref(rhs);
        *self = r;
    }
}

} // verus!
