//! The chunking adapter: a source iterator and the values pulled from it that
//! do not yet fill a group.
use vstd::prelude::*;
use vstd::std_specs::iter::IteratorSpec;

use crate::model::{chunk_hint, group_view, step};

verus! {

/// Iterator adapter that hands out the values of `iter` as arrays of `N`
/// consecutive values.
///
/// `buf` holds the values already pulled from `iter` that do not yet make up
/// a whole group; it is never longer than a group, and it is emptied in the
/// same step that hands its values out.
#[derive(Debug)]
pub struct ArrayChunks<I, T, const N: usize> {
    iter: I,
    buf: Vec<T>,
}

impl<I, T, const N: usize> ArrayChunks<I, T, N> {
    /// Well-formedness: fewer values are pending than make up a group.
    pub open spec fn wf(self) -> bool {
        self.pending().len() == 0 || self.pending().len() < N
    }

    /// The values pulled from the source that are waiting for a group.
    pub closed spec fn pending(self) -> Seq<T> {
        self.buf@
    }

    /// The wrapped source iterator.
    pub closed spec fn source(self) -> I {
        self.iter
    }

    /// The values pulled from the source that do not yet fill a group: empty
    /// right after construction and right after a group was handed out.
    pub fn remainder(&self) -> (r: &[T])
        ensures
            r@ == self.pending(),
    {
        self.buf.as_slice()
    }

    /// The estimate of how many groups are still to come, given the source's
    /// own estimate `(min_items, max_items)` of the values it will still yield.
    pub fn size_hint_from(&self, min_items: usize, max_items: Option<usize>) -> (r: (
        usize,
        Option<usize>,
    ))
        ensures
            r == chunk_hint(min_items, max_items, self.pending().len(), N as nat),
    {
        if N == 0 {
            return (usize::MAX, None);
        }
        let pending = self.buf.len();
        let lo = min_items.saturating_add(pending) / N;
        let hi = match max_items {
            Some(m) => match m.checked_add(pending) {
                Some(total) => Some(total / N),
                None => None,
            },
            None => None,
        };
        (lo, hi)
    }

    /// Creates a new `ArrayChunks` adapter from the given source iterator.
    pub fn new(iter: I) -> (r: Self)
        ensures
            r.wf(),
            r.pending() == Seq::<T>::empty(),
            r.source() == iter,
    {
        ArrayChunks { iter, buf: Vec::with_capacity(N) }
    }
}

impl<I: Iterator<Item = T>, T, const N: usize> ArrayChunks<I, T, N> {
    /// The estimate of how many groups are still to come: the source's own
    /// estimate, with the pending values added, divided by `N`.
    pub fn size_hint(&self) -> (r: (usize, Option<usize>))
        ensures
            exists|min_items: usize, max_items: Option<usize>|
                r == #[trigger] chunk_hint(min_items, max_items, self.pending().len(), N as nat),
    {
        let (min_items, max_items) = source_size_hint(&self.iter);
        self.size_hint_from(min_items, max_items)
    }

    /// Pulls values from the source until `N` of them are pending, and hands
    /// those out as one group; returns `None` as soon as the source yields
    /// `None`, keeping what was pulled pending for a later call.
    ///
    /// The source is asked again on every call, so one that yields values again
    /// after a `None` goes on filling the same group.  With `N == 0` the source
    /// is never asked and every call returns an empty group.
    pub fn next(&mut self) -> (r: Option<[T; N]>)
        requires
            old(self).wf(),
        ensures
            final(self).wf(),
            N == 0 ==> r is Some && *final(self) == *old(self),
            r is Some ==> final(self).pending() == Seq::<T>::empty(),
            r is Some ==> r->0@.take(old(self).pending().len() as int) == old(self).pending(),
            r is None ==> final(self).pending().take(old(self).pending().len() as int)
                == old(self).pending(),
            final(self).source().obeys_prophetic_iter_laws()
                == old(self).source().obeys_prophetic_iter_laws(),
            old(self).source().obeys_prophetic_iter_laws() ==> step(
                old(self).pending(),
                old(self).source().remaining(),
                N as nat,
            ) == (group_view(r), final(self).pending(), final(self).source().remaining()),
    {
        if N == 0 {
            let empty: Vec<T> = Vec::new();
            return match vec_into_array(empty) {
                Ok(a) => Some(a),
                Err(_) => None,
            };
        }
        let ghost start = self.buf@;
        let ghost rest = self.iter.remaining();
        let ghost lawful = self.iter.obeys_prophetic_iter_laws();
        while self.buf.len() < N - 1
            invariant
                0 < N,
                start == old(self).pending(),
                rest == old(self).source().remaining(),
                lawful == old(self).source().obeys_prophetic_iter_laws(),
                self.buf@.len() < N,
                self.buf@.take(start.len() as int) == start,
                start.len() <= self.buf@.len(),
                self.iter.obeys_prophetic_iter_laws() == lawful,
                lawful ==> start + rest == self.buf@ + self.iter.remaining(),
            decreases N - self.buf@.len(),
        {
            let ghost before = self.iter.remaining();
            match self.iter.next() {
                Some(x) => {
                    self.buf.push(x);
                    proof {
                        if lawful {
                            assert(before =~= seq![x] + self.iter.remaining());
                        }
                    }
                },
                None => {
                    proof {
                        if lawful {
                            assert(start + rest =~= self.buf@);
                        }
                    }
                    return None;
                },
            }
        }
        let ghost before = self.iter.remaining();
        match self.iter.next() {
            Some(x) => {
                let mut group: Vec<T> = Vec::with_capacity(N);
                std::mem::swap(&mut group, &mut self.buf);
                group.push(x);
                proof {
                    if lawful {
                        let k = N - start.len();
                        assert(before =~= seq![x] + self.iter.remaining());
                        assert(start + rest =~= group@ + self.iter.remaining());
                        assert(group@ =~= (start + rest).take(N as int));
                        assert(start + rest.take(k) =~= (start + rest).take(N as int));
                        assert(rest.skip(k) =~= (start + rest).skip(N as int));
                        assert(self.iter.remaining() =~= (start + rest).skip(N as int));
                    }
                }
                match vec_into_array(group) {
                    Ok(a) => Some(a),
                    Err(_) => None,
                }
            },
            None => {
                proof {
                    if lawful {
                        assert(start + rest =~= self.buf@);
                    }
                }
                None
            },
        }
    }
}

/// Lets the adapter stand wherever an iterator is expected; each call of
/// `next` is a call of the inherent `ArrayChunks::next`, whose contract says
/// what it returns.  Every adapter is well formed (`new` makes it so and
/// `next` keeps it so), so the test below always passes; it stands because the
/// trait's `next` cannot carry a precondition.
impl<I: Iterator<Item = T>, T, const N: usize> Iterator for ArrayChunks<I, T, N> {
    type Item = [T; N];

    fn next(&mut self) -> (r: Option<[T; N]>) {
        if self.buf.len() < N || self.buf.len() == 0 {
            ArrayChunks::next(self)
        } else {
            None
        }
    }
}

/// The adapter makes no claim through the iterator laws (with `N == 0` it never
/// ends): what a call returns is stated by the inherent `ArrayChunks::next`.
impl<I: Iterator<Item = T>, T, const N: usize> vstd::std_specs::iter::IteratorSpecImpl for ArrayChunks<I, T, N> {
    open spec fn obeys_prophetic_iter_laws(&self) -> bool {
        false
    }

    closed spec fn remaining(&self) -> Seq<[T; N]> {
        Seq::empty()
    }

    closed spec fn will_return_none(&self) -> bool {
        false
    }

    closed spec fn decrease(&self) -> Option<nat> {
        None
    }

    open spec fn initial_value_relation(&self, init: &Self) -> bool {
        true
    }

    open spec fn peek(&self, index: int) -> Option<[T; N]> {
        None
    }
}

/// Relies on the conversion `TryFrom<Vec<T>> for [T; N]`: the vector's values,
/// in order, when it holds exactly `N` of them; the vector itself otherwise.
#[verifier::external_body]
fn vec_into_array<T, const N: usize>(v: Vec<T>) -> (r: Result<[T; N], Vec<T>>)
    ensures
        match r {
            Ok(a) => v@.len() == N && a@ == v@,
            Err(e) => v@.len() != N && e@ == v@,
        },
{
    <[T; N]>::try_from(v)
}

/// Relies on `Iterator::size_hint` of the source, which promises nothing that
/// can be checked: the bounds are only an estimate.
#[verifier::external_body]
fn source_size_hint<I: Iterator>(iter: &I) -> (usize, Option<usize>) {
    iter.size_hint()
}

/// Duplicates the adapter: the source is cloned, and so is each pending
/// value, in order.
impl<I: Clone, T: Clone, const N: usize> Clone for ArrayChunks<I, T, N> {
    fn clone(&self) -> (r: Self)
        ensures
            self.wf() ==> r.wf(),
            cloned::<I>(self.source(), r.source()),
            r.pending().len() == self.pending().len(),
            forall|i: int|
                0 <= i < self.pending().len() ==> cloned::<T>(
                    #[trigger] self.pending()[i],
                    r.pending()[i],
                ),
    {
        let iter = self.iter.clone();
        let buf = self.buf.clone();
        ArrayChunks { iter, buf }
    }
}

} // verus!
