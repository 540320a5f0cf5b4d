//! Random reordering of lists.
use vstd::prelude::*;
use rand::seq::SliceRandom;

verus! {

/// `SliceRandom::shuffle` of the `rand` crate with the thread-local
/// generator of `rand::rng()`. The source swaps elements (Fisher-Yates), so the
/// result holds the same elements, each as often as before; which order comes
/// out depends on the generator and is not stated.
#[verifier::external_body]
pub(crate) fn shuffle<T>(v: &mut Vec<T>)
    ensures
        final(v)@.to_multiset() == old(v)@.to_multiset(),
{
    v.shuffle(&mut rand::rng())
}

/// `r` is the first `count` elements (all, if fewer) of some reordering of `from`.
pub open spec fn is_pick<T>(r: Seq<T>, from: Seq<T>, count: nat) -> bool {
    exists|p: Seq<T>|
        #![trigger p.to_multiset()]
        p.to_multiset() == from.to_multiset() && r == p.take(
            if count < from.len() {
                count as int
            } else {
                from.len() as int
            },
        )
}

/// Shuffles `v` and keeps its first `count` elements.
pub fn shuffle_truncate<T>(v: &mut Vec<T>, count: usize)
    ensures
        is_pick(final(v)@, old(v)@, count as nat),
{
    let ghost before = v@;
    shuffle(v);
    let ghost p = v@;
    v.truncate(count);
    proof {
        broadcast use vstd::seq_lib::group_to_multiset_ensures;

        assert(p.to_multiset().len() == before.to_multiset().len());
        assert(p.len() == before.len());
        if count as nat >= before.len() {
            assert(v@ =~= p.take(before.len() as int));
        } else {
            assert(v@ =~= p.take(count as int));
        }
    }
}

} // verus!
