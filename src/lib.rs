//! Regroups the values of any iterator into arrays of `N` consecutive values.
use vstd::prelude::*;

mod adapter;
mod laws;
mod model;

pub use adapter::ArrayChunks;
pub use laws::{lemma_run_regroups, lemma_step_conserves, run};
pub use model::{chunk_hint, group_view, step};

verus! {

/// Extension trait that gives every iterator the [`IteratorExt::array_chunks`]
/// method, which calls [`ArrayChunks::new`].
pub trait IteratorExt: Iterator + Sized {
    /// Returns an adapter that hands out the values of this iterator as arrays
    /// of `N` consecutive values.
    fn array_chunks<const N: usize>(self) -> (r: ArrayChunks<Self, Self::Item, N>)
        ensures
            r.wf(),
            r.pending() == Seq::<Self::Item>::empty(),
            r.source() == self,
    {
        ArrayChunks::new(self)
    }
}

impl<I: Iterator> IteratorExt for I {

}

} // verus!
