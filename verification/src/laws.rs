//! The algebraic laws of batches, stated once over the spec-level views
//! that every operation's contract speaks in.  Because a canonical run is
//! determined by the weight it assigns each key, every law reduces to the
//! uniqueness lemma of `entries`.

use vstd::prelude::*;

use crate::batch::FileZSet;
use crate::builder::FileZSetBuilder;
use crate::cursor::FileZSetCursor;
use crate::entries::{lemma_canonical_unique, lemma_weight_in_absent, weight_in};

verus! {

/// Canonical form: in every well-formed batch, consecutive keys strictly
/// increase and no entry carries weight zero.
pub proof fn lemma_batch_canonical(z: FileZSet)
    requires
        z.wf(),
    ensures
        forall|i: int, j: int| 0 <= i < j < z@.len() ==> z@[i].0 < z@[j].0,
        forall|i: int| 0 <= i < z@.len() ==> z@[i].1 != 0,
{
}

/// A batch assigning weight zero to every key is the empty batch.
pub proof fn lemma_zero_weights_is_empty(z: FileZSet)
    requires
        z.wf(),
        forall|k: i64| z.weight_of(k) == 0,
    ensures
        z@ == Seq::<(i64, i64)>::empty(),
{
    assert forall|k: i64| weight_in(z@, k) == weight_in(Seq::<(i64, i64)>::empty(), k) by {
        assert(z.weight_of(k) == 0);
        lemma_weight_in_absent(Seq::<(i64, i64)>::empty(), k);
    }
    lemma_canonical_unique(z@, Seq::<(i64, i64)>::empty());
}

/// Group law: merging a batch with its negation cancels to the canonical
/// empty batch.
pub proof fn lemma_add_neg_is_empty(a: FileZSet, n: FileZSet, r: FileZSet)
    requires
        a.wf(),
        n.wf(),
        r.wf(),
        forall|k: i64| n.weight_of(k) == -a.weight_of(k),
        forall|k: i64| r.weight_of(k) == a.weight_of(k) + n.weight_of(k),
    ensures
        r@ == Seq::<(i64, i64)>::empty(),
{
    lemma_zero_weights_is_empty(r);
}

/// Group law: merging commutes.
pub proof fn lemma_add_commutes(a: FileZSet, b: FileZSet, ab: FileZSet, ba: FileZSet)
    requires
        a.wf(),
        b.wf(),
        ab.wf(),
        ba.wf(),
        forall|k: i64| ab.weight_of(k) == a.weight_of(k) + b.weight_of(k),
        forall|k: i64| ba.weight_of(k) == b.weight_of(k) + a.weight_of(k),
    ensures
        ab@ == ba@,
{
    assert forall|k: i64| weight_in(ab@, k) == weight_in(ba@, k) by {
        assert(ab.weight_of(k) == a.weight_of(k) + b.weight_of(k));
        assert(ba.weight_of(k) == b.weight_of(k) + a.weight_of(k));
    }
    lemma_canonical_unique(ab@, ba@);
}

/// Group law: merging associates.
pub proof fn lemma_add_associates(
    a: FileZSet,
    b: FileZSet,
    c: FileZSet,
    ab: FileZSet,
    bc: FileZSet,
    ab_c: FileZSet,
    a_bc: FileZSet,
)
    requires
        a.wf(),
        b.wf(),
        c.wf(),
        ab.wf(),
        bc.wf(),
        ab_c.wf(),
        a_bc.wf(),
        forall|k: i64| ab.weight_of(k) == a.weight_of(k) + b.weight_of(k),
        forall|k: i64| bc.weight_of(k) == b.weight_of(k) + c.weight_of(k),
        forall|k: i64| ab_c.weight_of(k) == ab.weight_of(k) + c.weight_of(k),
        forall|k: i64| a_bc.weight_of(k) == a.weight_of(k) + bc.weight_of(k),
    ensures
        ab_c@ == a_bc@,
{
    assert forall|k: i64| weight_in(ab_c@, k) == weight_in(a_bc@, k) by {
        assert(ab_c.weight_of(k) == ab.weight_of(k) + c.weight_of(k));
        assert(a_bc.weight_of(k) == a.weight_of(k) + bc.weight_of(k));
        assert(ab.weight_of(k) == a.weight_of(k) + b.weight_of(k));
        assert(bc.weight_of(k) == b.weight_of(k) + c.weight_of(k));
    }
    lemma_canonical_unique(ab_c@, a_bc@);
}

/// Group law: the canonical empty batch is the identity of merging.
pub proof fn lemma_add_empty_identity(a: FileZSet, e: FileZSet, r: FileZSet)
    requires
        a.wf(),
        e.wf(),
        e@ == Seq::<(i64, i64)>::empty(),
        r.wf(),
        forall|k: i64| r.weight_of(k) == a.weight_of(k) + e.weight_of(k),
    ensures
        r@ == a@,
{
    assert forall|k: i64| weight_in(r@, k) == weight_in(a@, k) by {
        assert(r.weight_of(k) == a.weight_of(k) + e.weight_of(k));
        lemma_weight_in_absent(e@, k);
    }
    lemma_canonical_unique(r@, a@);
}

/// Builder round-trip: a builder holding exactly the pushed tuples,
/// finished into a batch, hands a cursor exactly that run to walk, so
/// draining the cursor reproduces the pushed sequence.
pub proof fn lemma_builder_round_trip(
    pushed: Seq<(i64, i64)>,
    b: FileZSetBuilder,
    z: FileZSet,
    c: FileZSetCursor,
)
    requires
        b@ == pushed,
        z@ == b@,
        c.entries() == z@,
    ensures
        c.entries() == pushed,
{
}

/// Fuel-invariance: a completed merge is determined by its sources alone,
/// so driving it with unit fuel over many calls and with unbounded fuel
/// in one call yield identical batches.
pub proof fn lemma_merge_deterministic(a: FileZSet, b: FileZSet, r1: FileZSet, r2: FileZSet)
    requires
        a.wf(),
        b.wf(),
        r1.wf(),
        r2.wf(),
        forall|k: i64| r1.weight_of(k) == a.weight_of(k) + b.weight_of(k),
        forall|k: i64| r2.weight_of(k) == a.weight_of(k) + b.weight_of(k),
    ensures
        r1@ == r2@,
{
    assert forall|k: i64| weight_in(r1@, k) == weight_in(r2@, k) by {
        assert(r1.weight_of(k) == a.weight_of(k) + b.weight_of(k));
        assert(r2.weight_of(k) == a.weight_of(k) + b.weight_of(k));
    }
    lemma_canonical_unique(r1@, r2@);
}

} // verus!
