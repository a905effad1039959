//! Facts about sequences that the loops of the library use.

use vstd::prelude::*;

verus! {

/// Filtering one more item of a sequence appends the item where it is kept.
pub proof fn lemma_filter_take_step<A>(s: Seq<A>, keep: spec_fn(A) -> bool, i: int)
    requires
        0 <= i < s.len(),
    ensures
        s.take(i + 1).filter(keep) == if keep(s[i]) {
            s.take(i).filter(keep).push(s[i])
        } else {
            s.take(i).filter(keep)
        },
{
    assert(s.take(i + 1).drop_last() == s.take(i));
    reveal(Seq::filter);
}

} // verus!
