//! Approximately uniform key sampling over a batch, without
//! materializing the key set.  The randomness comes from the process
//! generator behind a trusted boundary; the selection logic is verified
//! for every outcome of the draws.

use vstd::prelude::*;

use crate::batch::FileZSet;

verus! {

#[verifier::external_type_specification]
#[verifier::external_body]
pub struct ExThreadRng(rand::rngs::ThreadRng);

/// Relies on rand's `thread_rng`: a handle to the thread-local
/// generator.  Nothing is promised of the values it will produce.
#[verifier::external_body]
pub fn new_thread_rng() -> rand::rngs::ThreadRng {
    rand::thread_rng()
}

/// Relies on rand's `Rng::gen_range`: a draw from `0..n`, below `n`
/// whatever the generator state.
#[verifier::external_body]
fn rng_below(rng: &mut rand::rngs::ThreadRng, n: usize) -> (r: usize)
    requires
        n > 0,
    ensures
        r < n,
{
    rand::Rng::gen_range(rng, 0..n)
}

/// Every element of `sample` occurs as a key of the run `s`.
pub open spec fn keys_from(sample: Seq<i64>, s: Seq<(i64, i64)>) -> bool {
    forall|i: int|
        #![trigger sample[i]]
        0 <= i < sample.len() ==> exists|j: int| 0 <= j < s.len() && sample[i] == #[trigger] s[j].0
}

proof fn lemma_keys_from_push(sample: Seq<i64>, s: Seq<(i64, i64)>, k: i64, j: int)
    requires
        keys_from(sample, s),
        0 <= j < s.len(),
        k == s[j].0,
    ensures
        keys_from(sample.push(k), s),
{
    assert forall|i: int|
        #![trigger sample.push(k)[i]]
        0 <= i < sample.push(k).len() implies exists|jj: int|
        0 <= jj < s.len() && sample.push(k)[i] == #[trigger] s[jj].0 by {
        if i < sample.len() {
            assert(sample.push(k)[i] == sample[i]);
        } else {
            assert(sample.push(k)[i] == s[j].0);
        }
    }
}

impl FileZSet {
    /// Fill `sample` with an approximately uniform sample of at most
    /// `sample_size` keys: all keys when the batch is small enough,
    /// otherwise `sample_size` independent draws.
    pub fn sample_keys(
        &self,
        rng: &mut rand::rngs::ThreadRng,
        sample_size: usize,
        sample: &mut Vec<i64>,
    )
        requires
            self.wf(),
        ensures
            final(sample)@.len() == (if self@.len() <= sample_size {
                self@.len() as int
            } else {
                sample_size as int
            }),
            keys_from(final(sample)@, self@),
            self@.len() <= sample_size ==> forall|i: int|
                0 <= i < final(sample)@.len() ==> final(sample)@[i] == self@[i].0,
    {
        let n = self.layer.keys.len();
        let mut out: Vec<i64> = Vec::new();
        proof {
            assert(keys_from(out@, self@));
        }
        if n <= sample_size {
            let mut i: usize = 0;
            while i < n
                invariant
                    self.wf(),
                    n == self@.len(),
                    n == self.layer.keys@.len(),
                    0 <= i <= n,
                    out@.len() == i,
                    forall|j: int| 0 <= j < i ==> out@[j] == self@[j].0,
                    keys_from(out@, self@),
                decreases n - i,
            {
                let k = self.layer.keys[i];
                proof {
                    assert(k == self@[i as int].0);
                    lemma_keys_from_push(out@, self@, k, i as int);
                }
                out.push(k);
                i = i + 1;
            }
        } else {
            let mut i: usize = 0;
            while i < sample_size
                invariant
                    self.wf(),
                    n == self@.len(),
                    n == self.layer.keys@.len(),
                    n > sample_size,
                    0 <= i <= sample_size,
                    out@.len() == i,
                    keys_from(out@, self@),
                decreases sample_size - i,
            {
                let idx = rng_below(rng, n);
                let k = self.layer.keys[idx];
                proof {
                    assert(k == self@[idx as int].0);
                    lemma_keys_from_push(out@, self@, k, idx as int);
                }
                out.push(k);
                i = i + 1;
            }
        }
        *sample = out;
    }
}

} // verus!
