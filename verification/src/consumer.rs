//! One-shot, destructive drain of a finished batch: an alternative to the
//! cursor for one-way extraction where replay is unneeded.

use vstd::prelude::*;

use crate::batch::FileZSet;
use crate::cursor::FileZSetCursor;
use crate::entries::{canonical, zip_entries};

verus! {

/// Destructive single-pass consumer over a batch's run.
pub struct FileZSetConsumer {
    pub keys: Vec<i64>,
    pub diffs: Vec<i64>,
    pub pos: usize,
}

/// The values nested under one consumed key: here the single synthetic
/// unit value with its weight.
pub struct FileZSetValueConsumer {
    pub weight: i64,
    pub consumed: bool,
}

impl View for FileZSetConsumer {
    type V = Seq<(i64, i64)>;

    open spec fn view(&self) -> Seq<(i64, i64)> {
        zip_entries(self.keys@, self.diffs@)
    }
}

impl FileZSetConsumer {
    pub open spec fn wf(&self) -> bool {
        &&& self.keys@.len() == self.diffs@.len()
        &&& canonical(self@)
        &&& self.pos <= self@.len()
    }

    /// What a full drain from the current position yields, in order.
    pub open spec fn remaining(&self) -> Seq<(i64, i64)> {
        self@.skip(self.pos as int)
    }

    pub fn key_valid(&self) -> (r: bool)
        requires
            self.wf(),
        ensures
            r == (self.pos < self@.len()),
    {
        self.pos < self.keys.len()
    }

    /// Inspect the next key without consuming it.
    pub fn peek_key(&self) -> (k: i64)
        requires
            self.wf(),
            self.pos < self@.len(),
        ensures
            k == self@[self.pos as int].0,
    {
        self.keys[self.pos]
    }

    /// Consume the next key, handing back the key and a consumer for the
    /// values nested under it.
    pub fn next_key(&mut self) -> (r: (i64, FileZSetValueConsumer))
        requires
            old(self).wf(),
            old(self).pos < old(self)@.len(),
        ensures
            final(self).wf(),
            final(self)@ == old(self)@,
            final(self).pos == old(self).pos + 1,
            r.0 == old(self)@[old(self).pos as int].0,
            r.1.weight == old(self)@[old(self).pos as int].1,
            !r.1.consumed,
    {
        let n = self.keys.len();
        assert(self.pos < n);
        let key = self.keys[self.pos];
        let weight = self.diffs[self.pos];
        self.pos = self.pos + 1;
        (key, FileZSetValueConsumer { weight, consumed: false })
    }

    /// Skip forward to the first key at or above `key`.
    pub fn seek_key(&mut self, key: &i64)
        requires
            old(self).wf(),
        ensures
            final(self).wf(),
            final(self)@ == old(self)@,
            final(self).pos >= old(self).pos,
            forall|i: int| old(self).pos <= i < final(self).pos ==> final(self)@[i].0 < *key,
            final(self).pos < final(self)@.len() ==> final(self)@[final(self).pos as int].0
                >= *key,
    {
        proof {
            assert forall|i: int, j: int|
                0 <= i < j < self.keys@.len() implies self.keys@[i] < self.keys@[j] by {
                assert(self@[i].0 == self.keys@[i]);
                assert(self@[j].0 == self.keys@[j]);
            }
        }
        self.pos = crate::cursor::lower_bound_from(&self.keys, self.pos, *key);
    }
}

impl FileZSetValueConsumer {
    pub fn value_valid(&self) -> (r: bool)
        ensures
            r == !self.consumed,
    {
        !self.consumed
    }

    /// Consume the single synthetic value, yielding its weight and unit
    /// time.
    pub fn next_value(&mut self) -> (r: ((), i64, ()))
        requires
            !old(self).consumed,
        ensures
            final(self).consumed,
            final(self).weight == old(self).weight,
            r.1 == old(self).weight,
    {
        self.consumed = true;
        ((), self.weight, ())
    }

    /// How many values are left under the current key, without
    /// enumerating them.
    pub fn remaining_values(&self) -> (n: usize)
        ensures
            n == (if self.consumed {
                0int
            } else {
                1int
            }),
    {
        if self.consumed {
            0
        } else {
            1
        }
    }
}

impl FileZSet {
    /// Turn the batch into a destructive consumer positioned before the
    /// first key.
    pub fn consumer(self) -> (c: FileZSetConsumer)
        requires
            self.wf(),
        ensures
            c.wf(),
            c@ == self@,
            c.pos == 0,
            c.remaining() == self@,
    {
        let c = FileZSetConsumer { keys: self.layer.keys, diffs: self.layer.diffs, pos: 0 };
        proof {
            assert(c@ =~= self@);
            assert(c.remaining() =~= c@);
        }
        c
    }
}

/// Consumer/cursor equivalence: a consumer and a cursor made from the
/// same batch drain the same ordered run of key/weight pairs.  The
/// consumer yields `c.remaining()` in order; the cursor visits
/// `cur.entries()` in order; both are the batch's run.
pub proof fn lemma_consumer_cursor_equivalence(
    z: FileZSet,
    c: FileZSetConsumer,
    cur: FileZSetCursor,
)
    requires
        z.wf(),
        c.pos == 0,
        c.remaining() == z@,
        cur.entries() == z@,
    ensures
        c.remaining() == cur.entries(),
        forall|i: int| 0 <= i < z@.len() ==> c.remaining()[i] == cur.entries()[i],
{
}

} // verus!
