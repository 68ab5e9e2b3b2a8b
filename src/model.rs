//! The mathematical model of chunking: what one request for a group does to
//! the pending values and to what the source has left to give.
use vstd::prelude::*;

verus! {

/// One request for a group, over the values `pending` already buffered and the
/// values `rest` that the source will still yield, for groups of `n` values.
///
/// Returns the group handed out (if any), the values pending afterwards, and
/// what the source has left afterwards.  With `n == 0` nothing is pulled and an
/// empty group comes out.  Otherwise a group comes out exactly when the pending
/// values and the source together hold `n` values; if not, all that the source
/// had is pulled and kept pending.
pub open spec fn step<T>(pending: Seq<T>, rest: Seq<T>, n: nat) -> (Option<Seq<T>>, Seq<T>, Seq<T>) {
    if n == 0 {
        (Some(Seq::empty()), pending, rest)
    } else if pending.len() + rest.len() >= n {
        let k = n - pending.len();
        (Some(pending + rest.take(k)), Seq::empty(), rest.skip(k))
    } else {
        (None, pending + rest, Seq::empty())
    }
}

/// The estimate of how many groups are still to come, from the source's own
/// estimate `(min_items, max_items)` of how many values it will still yield,
/// with `pending` values already buffered, for groups of `n` values.
///
/// The lower bound saturates at `usize::MAX` before the division; an upper
/// bound whose sum does not fit in a `usize` is unknown.  With `n == 0` groups
/// never run out: the lower bound is `usize::MAX` and there is no upper bound.
pub open spec fn chunk_hint(min_items: usize, max_items: Option<usize>, pending: nat, n: nat) -> (usize, Option<usize>) {
    if n == 0 {
        (usize::MAX, None)
    } else {
        let total = min_items + pending;
        let lo = if total > usize::MAX { usize::MAX as int } else { total };
        let hi = match max_items {
            Some(m) => if m + pending > usize::MAX {
                None
            } else {
                Some(((m + pending) / (n as int)) as usize)
            },
            None => None,
        };
        ((lo / (n as int)) as usize, hi)
    }
}

/// The values of an optional group, as a sequence.
pub open spec fn group_view<T, const N: usize>(g: Option<[T; N]>) -> Option<Seq<T>> {
    match g {
        Some(a) => Some(a@),
        None => None,
    }
}

} // verus!
