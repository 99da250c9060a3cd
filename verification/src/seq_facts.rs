//! Facts about sequences that the loops over them lean on.

use vstd::prelude::*;

verus! {

/// Taking one more item of a sequence: the shorter prefix and the item taken.
pub proof fn lemma_take_step<T>(s: Seq<T>, i: int)
    requires
        0 <= i < s.len(),
    ensures
        s.take(i + 1).drop_last() == s.take(i),
        s.take(i + 1).last() == s[i],
{
    assert(s.take(i + 1).drop_last() =~= s.take(i));
}

} // verus!
