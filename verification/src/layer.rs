//! Physical storage of one sorted run: a pair of equal-length columns,
//! one for keys and one for weights.

use vstd::prelude::*;

use crate::entries::{canonical, zip_entries};

verus! {

/// Columnar storage of a canonical run of `(key, weight)` entries.
#[derive(Debug, Clone)]
pub struct ColumnLayer {
    pub keys: Vec<i64>,
    pub diffs: Vec<i64>,
}

impl View for ColumnLayer {
    type V = Seq<(i64, i64)>;

    open spec fn view(&self) -> Seq<(i64, i64)> {
        zip_entries(self.keys@, self.diffs@)
    }
}

impl ColumnLayer {
    /// Both columns pair up and the run is canonical.
    pub open spec fn wf(&self) -> bool {
        &&& self.keys@.len() == self.diffs@.len()
        &&& canonical(self@)
    }

    pub fn empty() -> (l: ColumnLayer)
        ensures
            l.wf(),
            l@ =~= Seq::<(i64, i64)>::empty(),
    {
        ColumnLayer { keys: Vec::new(), diffs: Vec::new() }
    }

    pub fn len(&self) -> (n: usize)
        requires
            self.wf(),
        ensures
            n == self@.len(),
    {
        self.keys.len()
    }

    pub fn is_empty(&self) -> (r: bool)
        requires
            self.wf(),
        ensures
            r == (self@.len() == 0),
    {
        self.keys.len() == 0
    }
}

} // verus!
