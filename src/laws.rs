//! What repeated requests for groups add up to, stated over the model of
//! one request.
use vstd::arithmetic::div_mod::{lemma_fundamental_div_mod, lemma_fundamental_div_mod_converse};
use vstd::prelude::*;

use crate::model::step;

verus! {

/// Requests for groups repeated until one returns no group, starting with the
/// values `pending` buffered and the source still to yield `rest`: the groups
/// handed out, in order, and the values left pending at the end.
///
/// This is what calls of `ArrayChunks::next` produce over a source that keeps
/// the iterator laws, each call taking one `step`.  It is defined for the
/// states that an adapter can be in, with fewer than `n` values pending and
/// `n >= 1`.
pub open spec fn run<T>(pending: Seq<T>, rest: Seq<T>, n: nat) -> (Seq<Seq<T>>, Seq<T>)
    decreases rest.len(),
    when n > 0 && pending.len() < n
{
    let (group, next_pending, next_rest) = step(pending, rest, n);
    match group {
        Some(g) => {
            let (groups, last) = run(next_pending, next_rest, n);
            (seq![g] + groups, last)
        },
        None => (Seq::empty(), next_pending),
    }
}

/// One request for a group neither loses nor duplicates a value: the group
/// handed out (if any), then the values pending afterwards, then what the
/// source has left afterwards, are the values pending before followed by what
/// the source had before.
pub proof fn lemma_step_conserves<T>(pending: Seq<T>, rest: Seq<T>, n: nat)
    requires
        pending.len() == 0 || pending.len() < n,
    ensures
        ({
            let (group, next_pending, next_rest) = step(pending, rest, n);
            match group {
                Some(g) => g + next_pending + next_rest == pending + rest,
                None => next_pending + next_rest == pending + rest,
            }
        }),
{
    let (group, next_pending, next_rest) = step(pending, rest, n);
    if n > 0 && pending.len() + rest.len() >= n {
        let k = n - pending.len();
        assert(rest.take(k) + rest.skip(k) =~= rest);
        assert(pending + rest.take(k) + next_pending + next_rest =~= pending + rest);
    } else if n == 0 {
        assert(Seq::<T>::empty() + pending + rest =~= pending + rest);
    } else {
        assert(next_pending + next_rest =~= pending + rest);
    }
}

/// Regrouping loses, duplicates and reorders nothing.  Over a source that will
/// yield the values `s`, a new adapter with groups of `n >= 1` values hands
/// out `s.len() / n` groups of `n` values each and is then left with
/// `s.len() % n` values pending; the groups, in order, followed by those
/// values, are `s` again.
pub proof fn lemma_run_regroups<T>(s: Seq<T>, n: nat)
    requires
        n >= 1,
    ensures
        ({
            let (groups, last) = run(Seq::empty(), s, n);
            &&& groups.len() == s.len() as int / (n as int)
            &&& last.len() == s.len() as int % (n as int)
            &&& forall|i: int| 0 <= i < groups.len() ==> (#[trigger] groups[i]).len() == n
            &&& groups.flatten() + last == s
        }),
{
    lemma_run_from(Seq::empty(), s, n);
    assert(Seq::<T>::empty() + s =~= s);
}

/// `lemma_run_regroups` from any state an adapter can be in.
proof fn lemma_run_from<T>(pending: Seq<T>, rest: Seq<T>, n: nat)
    requires
        n >= 1,
        pending.len() < n,
    ensures
        ({
            let (groups, last) = run(pending, rest, n);
            let total = (pending.len() + rest.len()) as int;
            &&& groups.len() == total / (n as int)
            &&& last.len() == total % (n as int)
            &&& forall|i: int| 0 <= i < groups.len() ==> (#[trigger] groups[i]).len() == n
            &&& groups.flatten() + last == pending + rest
        }),
    decreases rest.len(),
{
    let (groups, last) = run(pending, rest, n);
    let x = (pending.len() + rest.len()) as int;
    let d = n as int;
    if x >= n {
        let k = n - pending.len();
        let g = pending + rest.take(k);
        let next_rest = rest.skip(k);
        lemma_run_from(Seq::empty(), next_rest, n);
        let (tail, fin) = run(Seq::empty(), next_rest, n);
        assert(groups == seq![g] + tail);
        assert(fin == last);
        let y = x - d;
        assert(next_rest.len() == y);
        lemma_fundamental_div_mod(y, d);
        assert((y / d + 1) * d == (y / d) * d + d) by (nonlinear_arith);
        lemma_fundamental_div_mod_converse(x, d, y / d + 1, y % d);
        assert forall|i: int| 0 <= i < groups.len() implies (#[trigger] groups[i]).len() == n by {
            if i > 0 {
                assert(groups[i] == tail[i - 1]);
            }
        }
        assert(groups.drop_first() =~= tail);
        assert(groups.first() == g);
        assert(Seq::<T>::empty() + next_rest =~= next_rest);
        assert(rest.take(k) + next_rest =~= rest);
        assert(groups.flatten() + last =~= pending + rest);
    } else {
        lemma_fundamental_div_mod_converse(x, d, 0, x);
        assert(groups.flatten() =~= Seq::<T>::empty());
        assert(groups.flatten() + last =~= pending + rest);
    }
}

} // verus!
