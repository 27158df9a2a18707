//! Repeatable, read-only two-level navigation over one batch.
//!
//! The key dimension walks the sorted run in either direction; the value
//! dimension is degenerate (one synthetic unit value per key), so value
//! validity only records whether that unit has been consumed for the
//! current key.

use vstd::prelude::*;

use crate::batch::FileZSet;

verus! {

/// First index at or after `from` whose key is at least `key`, found by
/// binary search over the sorted column.
pub(crate) fn lower_bound_from(keys: &Vec<i64>, from: usize, key: i64) -> (r: usize)
    requires
        from <= keys@.len(),
        forall|i: int, j: int| 0 <= i < j < keys@.len() ==> keys@[i] < keys@[j],
    ensures
        from <= r <= keys@.len(),
        forall|i: int| from <= i < r ==> keys@[i] < key,
        r < keys@.len() ==> keys@[r as int] >= key,
{
    let mut lo = from;
    let mut hi = keys.len();
    while lo < hi
        invariant
            from <= lo <= hi <= keys@.len(),
            forall|i: int, j: int| 0 <= i < j < keys@.len() ==> keys@[i] < keys@[j],
            forall|i: int| from <= i < lo ==> keys@[i] < key,
            hi < keys@.len() ==> keys@[hi as int] >= key,
        decreases hi - lo,
    {
        let mid = lo + (hi - lo) / 2;
        if keys[mid] < key {
            assert forall|i: int| from <= i < mid + 1 implies keys@[i] < key by {
                if i < mid {
                    assert(keys@[i] < keys@[mid as int]);
                }
            }
            lo = mid + 1;
        } else {
            hi = mid;
        }
    }
    lo
}

/// First index at or after `from` whose key is strictly above `key`.
fn upper_bound_from(keys: &Vec<i64>, from: usize, key: i64) -> (r: usize)
    requires
        from <= keys@.len(),
        forall|i: int, j: int| 0 <= i < j < keys@.len() ==> keys@[i] < keys@[j],
    ensures
        from <= r <= keys@.len(),
        forall|i: int| from <= i < r ==> keys@[i] <= key,
        r < keys@.len() ==> keys@[r as int] > key,
{
    let mut lo = from;
    let mut hi = keys.len();
    while lo < hi
        invariant
            from <= lo <= hi <= keys@.len(),
            forall|i: int, j: int| 0 <= i < j < keys@.len() ==> keys@[i] < keys@[j],
            forall|i: int| from <= i < lo ==> keys@[i] <= key,
            hi < keys@.len() ==> keys@[hi as int] > key,
        decreases hi - lo,
    {
        let mid = lo + (hi - lo) / 2;
        if keys[mid] <= key {
            assert forall|i: int| from <= i < mid + 1 implies keys@[i] <= key by {
                if i < mid {
                    assert(keys@[i] < keys@[mid as int]);
                }
            }
            lo = mid + 1;
        } else {
            hi = mid;
        }
    }
    lo
}

/// The key column of a well-formed batch is sorted strictly.
proof fn lemma_keys_sorted(z: &FileZSet)
    requires
        z.wf(),
    ensures
        forall|i: int, j: int|
            0 <= i < j < z.layer.keys@.len() ==> z.layer.keys@[i] < z.layer.keys@[j],
        z@.len() == z.layer.keys@.len(),
{
    assert forall|i: int, j: int|
        0 <= i < j < z.layer.keys@.len() implies z.layer.keys@[i] < z.layer.keys@[j] by {
        assert(z@[i].0 == z.layer.keys@[i]);
        assert(z@[j].0 == z.layer.keys@[j]);
    }
}

/// A cursor for navigating a single batch.  It never mutates its source.
#[derive(Debug, Clone)]
pub struct FileZSetCursor<'s> {
    pub src: &'s FileZSet,
    pub pos: usize,
    pub before: bool,
    pub valid: bool,
}

impl<'s> FileZSetCursor<'s> {
    /// The run this cursor walks.
    pub open spec fn entries(&self) -> Seq<(i64, i64)> {
        self.src@
    }

    pub open spec fn wf(&self) -> bool {
        &&& self.src.wf()
        &&& self.pos <= self.entries().len()
        &&& self.before ==> self.pos == 0
    }

    /// The cursor rests on an entry.
    pub open spec fn key_is_valid(&self) -> bool {
        !self.before && self.pos < self.entries().len()
    }

    /// The synthetic unit value of the current key is still unconsumed.
    pub open spec fn val_is_valid(&self) -> bool {
        self.valid
    }

    /// The entry the cursor rests on.
    pub open spec fn current(&self) -> (i64, i64) {
        self.entries()[self.pos as int]
    }

    pub fn key(&self) -> (k: i64)
        requires
            self.wf(),
            self.key_is_valid(),
        ensures
            k == self.current().0,
    {
        self.src.layer.keys[self.pos]
    }

    /// The single synthetic value.
    pub fn val(&self) -> (v: &())
        requires
            self.wf(),
            self.key_is_valid(),
    {
        &()
    }

    pub fn weight(&mut self) -> (w: i64)
        requires
            old(self).wf(),
            old(self).key_is_valid(),
            old(self).val_is_valid(),
        ensures
            *final(self) == *old(self),
            w == old(self).current().1,
    {
        self.src.layer.diffs[self.pos]
    }

    pub fn key_valid(&self) -> (r: bool)
        requires
            self.wf(),
        ensures
            r == self.key_is_valid(),
    {
        !self.before && self.pos < self.src.layer.keys.len()
    }

    pub fn val_valid(&self) -> (r: bool)
        ensures
            r == self.val_is_valid(),
    {
        self.valid
    }

    /// Move to the next key and re-arm the value dimension.
    pub fn step_key(&mut self)
        requires
            old(self).wf(),
            old(self).key_is_valid(),
        ensures
            final(self).wf(),
            final(self).src == old(self).src,
            final(self).pos == old(self).pos + 1,
            !final(self).before,
            final(self).val_is_valid(),
    {
        let n = self.src.layer.keys.len();
        assert(self.pos < n);
        self.pos = self.pos + 1;
        self.valid = true;
    }

    /// Move to the previous key; before the first key the cursor becomes
    /// invalid on the low side.
    pub fn step_key_reverse(&mut self)
        requires
            old(self).wf(),
            old(self).key_is_valid(),
        ensures
            final(self).wf(),
            final(self).src == old(self).src,
            final(self).val_is_valid(),
            old(self).pos == 0 ==> final(self).before && final(self).pos == 0,
            old(self).pos > 0 ==> !final(self).before && final(self).pos == old(self).pos - 1,
    {
        if self.pos == 0 {
            self.before = true;
        } else {
            self.pos = self.pos - 1;
        }
        self.valid = true;
    }

    /// Jump forward to the first key at or after `key` without visiting
    /// the keys in between.
    pub fn seek_key(&mut self, key: &i64)
        requires
            old(self).wf(),
        ensures
            final(self).wf(),
            final(self).src == old(self).src,
            final(self).val_is_valid(),
            !final(self).before,
            final(self).pos >= old(self).seek_base(),
            final(self).pos <= final(self).entries().len(),
            forall|i: int|
                old(self).seek_base() <= i < final(self).pos ==> final(self).entries()[i].0
                    < *key,
            final(self).key_is_valid() ==> final(self).current().0 >= *key,
    {
        proof {
            lemma_keys_sorted(self.src);
        }
        let from = if self.before {
            0
        } else {
            self.pos
        };
        self.pos = lower_bound_from(&self.src.layer.keys, from, *key);
        self.before = false;
        self.valid = true;
    }

    /// Index the forward seeks start from.
    pub open spec fn seek_base(&self) -> int {
        if self.before {
            0
        } else {
            self.pos as int
        }
    }

    /// Jump backward to the last key at or below `key`.
    pub fn seek_key_reverse(&mut self, key: &i64)
        requires
            old(self).wf(),
        ensures
            final(self).wf(),
            final(self).src == old(self).src,
            final(self).val_is_valid(),
            final(self).pos <= old(self).rev_base(),
            forall|i: int|
                final(self).rev_limit() <= i < old(self).rev_base() ==> final(self).entries()[i].0
                    > *key,
            final(self).key_is_valid() ==> final(self).current().0 <= *key,
            final(self).before ==> forall|i: int|
                0 <= i < old(self).rev_base() ==> final(self).entries()[i].0 > *key,
    {
        if self.before {
            self.valid = true;
            return ;
        }
        proof {
            lemma_keys_sorted(self.src);
        }
        let end = if self.pos < self.src.layer.keys.len() {
            self.pos + 1
        } else {
            self.src.layer.keys.len()
        };
        let r0 = upper_bound_from(&self.src.layer.keys, 0, *key);
        let r = if r0 < end {
            r0
        } else {
            end
        };
        assert forall|i: int| r <= i < end implies self.entries()[i].0 > *key by {
            assert(self.entries()[i].0 == self.src.layer.keys@[i]);
            if i > r0 {
                assert(self.src.layer.keys@[r0 as int] < self.src.layer.keys@[i]);
            }
        }
        if r == 0 {
            self.before = true;
            self.pos = 0;
        } else {
            self.pos = r - 1;
        }
        self.valid = true;
    }

    /// One past the index the reverse seeks start from.
    pub open spec fn rev_base(&self) -> int {
        if self.before {
            0
        } else if self.pos < self.entries().len() {
            self.pos + 1
        } else {
            self.entries().len() as int
        }
    }

    /// Index the cursor came to rest past, looking backward.
    pub open spec fn rev_limit(&self) -> int {
        if self.before {
            0
        } else {
            self.pos + 1
        }
    }

    /// Scan forward to the first key the predicate accepts.  The caller
    /// hands a predicate that is false then true over the key order.
    pub fn seek_key_with<P: Fn(&i64) -> bool>(&mut self, predicate: P)
        requires
            old(self).wf(),
            forall|k: i64| #[trigger] call_requires(predicate, (&k,)),
        ensures
            final(self).wf(),
            final(self).src == old(self).src,
            final(self).val_is_valid(),
            !final(self).before,
            old(self).seek_base() <= final(self).pos <= final(self).entries().len(),
            forall|i: int|
                old(self).seek_base() <= i < final(self).pos ==> call_ensures(
                    predicate,
                    (&final(self).entries()[i].0,),
                    false,
                ),
            final(self).key_is_valid() ==> call_ensures(
                predicate,
                (&final(self).current().0,),
                true,
            ),
    {
        let ghost base = self.seek_base();
        let mut i = if self.before {
            0
        } else {
            self.pos
        };
        let n = self.src.layer.keys.len();
        let mut found = false;
        while i < n && !found
            invariant
                self == old(self),
                old(self).wf(),
                forall|k: i64| #[trigger] call_requires(predicate, (&k,)),
                base <= i <= n,
                n == self.entries().len(),
                forall|j: int|
                    base <= j < i ==> call_ensures(predicate, (&self.entries()[j].0,), false),
                found ==> i < n && call_ensures(predicate, (&self.entries()[i as int].0,), true),
            decreases n - i, (if found { 0int } else { 1int }),
        {
            let k = self.src.layer.keys[i];
            assert(k == self.entries()[i as int].0);
            if predicate(&k) {
                found = true;
            } else {
                i = i + 1;
            }
        }
        self.pos = i;
        self.before = false;
        self.valid = true;
    }

    /// Scan backward to the last key the predicate accepts.
    pub fn seek_key_with_reverse<P: Fn(&i64) -> bool>(&mut self, predicate: P)
        requires
            old(self).wf(),
            forall|k: i64| #[trigger] call_requires(predicate, (&k,)),
        ensures
            final(self).wf(),
            final(self).src == old(self).src,
            final(self).val_is_valid(),
            final(self).pos <= old(self).rev_base(),
            forall|i: int|
                final(self).rev_limit() <= i < old(self).rev_base() ==> call_ensures(
                    predicate,
                    (&final(self).entries()[i].0,),
                    false,
                ),
            final(self).key_is_valid() ==> call_ensures(
                predicate,
                (&final(self).current().0,),
                true,
            ),
            final(self).before ==> forall|i: int|
                0 <= i < old(self).rev_base() ==> call_ensures(
                    predicate,
                    (&final(self).entries()[i].0,),
                    false,
                ),
    {
        if self.before {
            self.valid = true;
            return ;
        }
        let mut i = if self.pos < self.src.layer.keys.len() {
            self.pos + 1
        } else {
            self.src.layer.keys.len()
        };
        while i > 0
            invariant
                self == old(self),
                old(self).wf(),
                !self.before,
                forall|k: i64| #[trigger] call_requires(predicate, (&k,)),
                0 <= i <= old(self).rev_base(),
                forall|j: int|
                    i <= j < old(self).rev_base() ==> call_ensures(
                        predicate,
                        (&self.entries()[j].0,),
                        false,
                    ),
            decreases i,
        {
            let k = self.src.layer.keys[i - 1];
            if predicate(&k) {
                self.pos = i - 1;
                self.valid = true;
                return ;
            }
            i = i - 1;
        }
        self.before = true;
        self.pos = 0;
        self.valid = true;
    }

    /// Fold over the times of the current value: the value dimension is
    /// degenerate, so the folder is applied once to the current weight
    /// when the cursor rests on an entry, and not at all otherwise.
    pub fn fold_times<U, F: Fn(U, &(), &i64) -> U>(&mut self, init: U, fold: F) -> (r: U)
        requires
            old(self).wf(),
            old(self).key_is_valid() ==> call_requires(
                fold,
                (init, &(), &old(self).current().1),
            ),
        ensures
            *final(self) == *old(self),
            old(self).key_is_valid() ==> call_ensures(
                fold,
                (init, &(), &old(self).current().1),
                r,
            ),
            !old(self).key_is_valid() ==> r == init,
    {
        if !self.before && self.pos < self.src.layer.keys.len() {
            let w = self.src.layer.diffs[self.pos];
            fold(init, &(), &w)
        } else {
            init
        }
    }

    /// Fold over the times up to an upper bound; with unit times this is
    /// `fold_times` itself.
    pub fn fold_times_through<U, F: Fn(U, &(), &i64) -> U>(
        &mut self,
        _upper: &(),
        init: U,
        fold: F,
    ) -> (r: U)
        requires
            old(self).wf(),
            old(self).key_is_valid() ==> call_requires(
                fold,
                (init, &(), &old(self).current().1),
            ),
        ensures
            *final(self) == *old(self),
            old(self).key_is_valid() ==> call_ensures(
                fold,
                (init, &(), &old(self).current().1),
                r,
            ),
            !old(self).key_is_valid() ==> r == init,
    {
        self.fold_times(init, fold)
    }

    /// Exhaust the single synthetic value of the current key.
    pub fn step_val(&mut self)
        ensures
            *final(self) == (FileZSetCursor { valid: false, ..*old(self) }),
    {
        self.valid = false;
    }

    /// The unit value is the only value; seeking to it changes nothing.
    pub fn seek_val(&mut self, _val: &())
        ensures
            *final(self) == *old(self),
    {
    }

    /// Invalidate the value position when the predicate rejects the unit
    /// value.
    pub fn seek_val_with<P: Fn(&()) -> bool>(&mut self, predicate: P)
        requires
            call_requires(predicate, (&(),)),
        ensures
            exists|b: bool|
                call_ensures(predicate, (&(),), b) && *final(self) == (FileZSetCursor {
                    valid: old(self).valid && b,
                    ..*old(self)
                }),
    {
        if !predicate(&()) {
            self.valid = false;
        }
    }

    /// Reposition on the first key.
    pub fn rewind_keys(&mut self)
        requires
            old(self).wf(),
        ensures
            final(self).wf(),
            final(self).src == old(self).src,
            final(self).pos == 0,
            !final(self).before,
            final(self).val_is_valid(),
    {
        self.pos = 0;
        self.before = false;
        self.valid = true;
    }

    /// Reposition on the last key.
    pub fn fast_forward_keys(&mut self)
        requires
            old(self).wf(),
        ensures
            final(self).wf(),
            final(self).src == old(self).src,
            !final(self).before,
            final(self).val_is_valid(),
            final(self).entries().len() > 0 ==> final(self).pos == final(self).entries().len()
                - 1,
            final(self).entries().len() == 0 ==> final(self).pos == 0,
    {
        let n = self.src.layer.keys.len();
        self.pos = if n > 0 {
            n - 1
        } else {
            0
        };
        self.before = false;
        self.valid = true;
    }

    pub fn rewind_vals(&mut self)
        ensures
            *final(self) == (FileZSetCursor { valid: true, ..*old(self) }),
    {
        self.valid = true;
    }

    pub fn step_val_reverse(&mut self)
        ensures
            *final(self) == (FileZSetCursor { valid: false, ..*old(self) }),
    {
        self.valid = false;
    }

    pub fn seek_val_reverse(&mut self, _val: &())
        ensures
            *final(self) == *old(self),
    {
    }

    pub fn seek_val_with_reverse<P: Fn(&()) -> bool>(&mut self, predicate: P)
        requires
            call_requires(predicate, (&(),)),
        ensures
            exists|b: bool|
                call_ensures(predicate, (&(),), b) && *final(self) == (FileZSetCursor {
                    valid: old(self).valid && b,
                    ..*old(self)
                }),
    {
        if !predicate(&()) {
            self.valid = false;
        }
    }

    pub fn fast_forward_vals(&mut self)
        ensures
            *final(self) == (FileZSetCursor { valid: true, ..*old(self) }),
    {
        self.valid = true;
    }
}

impl FileZSet {
    /// A fresh cursor positioned on the first entry.
    pub fn cursor<'s>(&'s self) -> (c: FileZSetCursor<'s>)
        requires
            self.wf(),
        ensures
            c.wf(),
            c.src == self,
            c.pos == 0,
            !c.before,
            c.val_is_valid(),
    {
        FileZSetCursor { src: self, pos: 0, before: false, valid: true }
    }
}

} // verus!
