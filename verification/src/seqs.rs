//! Small general facts about sequences that more than one module's sorting
//! proofs lean on.

use vstd::prelude::*;

verus! {

/// Inserting an element anywhere adds exactly it to the sequence's multiset.
pub proof fn lemma_insert_to_multiset<A>(s: Seq<A>, x: A, j: int)
    requires
        0 <= j <= s.len(),
    ensures
        s.insert(j, x).to_multiset() == s.to_multiset().insert(x),
{
    broadcast use vstd::seq_lib::group_to_multiset_ensures;

    let t = s.insert(j, x);
    assert(t.remove(j) =~= s);
    assert(t[j] == x);
    assert(t.to_multiset().remove(x) =~= s.to_multiset());
    assert(t.contains(x));
    assert(t.to_multiset().count(x) > 0);
    assert(t.to_multiset() =~= s.to_multiset().insert(x));
}

/// A prefix holds no element more often than the whole sequence.
pub proof fn lemma_take_submultiset<A>(s: Seq<A>, k: int)
    requires
        0 <= k <= s.len(),
    ensures
        s.take(k).to_multiset().subset_of(s.to_multiset()),
{
    broadcast use vstd::seq_lib::group_to_multiset_ensures;

    assert(s =~= s.take(k) + s.skip(k));
    vstd::seq_lib::lemma_multiset_commutative(s.take(k), s.skip(k));
    assert forall|x: A|
        s.take(k).to_multiset().count(x) <= #[trigger] s.to_multiset().count(x) by {
        assert(s.to_multiset().count(x) == s.take(k).to_multiset().count(x) + s.skip(
            k,
        ).to_multiset().count(x));
    }
}

} // verus!
