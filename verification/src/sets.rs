//! Helpers on the hash sets of node identifiers that configurations, replication
//! sets and witnesses are made of.
use std::collections::HashSet;

use vstd::prelude::*;

verus! {

/// The sequence `ids` enumerates the set `s`: each member once, nothing else, in any order.
pub open spec fn enumerates(ids: Seq<u64>, s: Set<u64>) -> bool {
    &&& ids.no_duplicates()
    &&& ids.to_set() == s
}

/// An enumeration lists exactly the members of a set, none of them twice.
pub proof fn law_enumeration_lists_each_member_once(ids: Seq<u64>, s: Set<u64>)
    requires
        enumerates(ids, s),
    ensures
        forall|id: u64| #[trigger] ids.contains(id) <==> s.contains(id),
        forall|i: int, j: int| 0 <= i < j < ids.len() ==> ids[i] != ids[j],
{
    assert forall|id: u64| #[trigger] ids.contains(id) <==> s.contains(id) by {
        assert(ids.to_set().contains(id) <==> ids.contains(id));
    }
}

/// A hash set holds finitely many identifiers.
pub proof fn lemma_hash_set_finite(s: &HashSet<u64>)
    ensures
        s@.finite(),
{
    broadcast use vstd::std_specs::hash::group_hash_axioms;

    let visited = vstd::std_specs::iter::IteratorSpec::remaining(
        &vstd::std_specs::hash::spec_hash_keys_iter(s),
    ).unref();
    assert(visited.to_set() == s@);
}

/// The first `k + 1` entries of a list without repetition are the first `k` and one more.
pub proof fn lemma_take_next(ids: Seq<u64>, k: int)
    requires
        ids.no_duplicates(),
        0 <= k < ids.len(),
    ensures
        ids.take(k + 1).to_set() == ids.take(k).to_set().insert(ids[k]),
        !ids.take(k).to_set().contains(ids[k]),
        ids.take(k).to_set().finite(),
{
    let prev = ids.take(k);
    assert(ids.take(k + 1) == prev.push(ids[k]));
    prev.lemma_push_to_set_commute(ids[k]);
}

/// Lists the members of a set, in no particular order.
pub fn to_vec(s: &HashSet<u64>) -> (ids: Vec<u64>)
    ensures
        enumerates(ids@, s@),
        ids@.len() == s@.len(),
        s@.finite(),
{
    proof {
        lemma_hash_set_finite(s);
    }
    let ghost refs = vstd::std_specs::iter::IteratorSpec::remaining(
        &vstd::std_specs::hash::spec_hash_keys_iter(s),
    );
    let mut ids: Vec<u64> = Vec::new();
    for id in it: s.iter()
        invariant
            it.seq() == refs,
            ids@ == refs.unref().take(it.index()),
    {
        ids.push(*id);
    }
    proof {
        broadcast use vstd::std_specs::hash::group_hash_axioms;

        assert(ids@ == refs.unref());
        assert(refs.no_duplicates());
        assert forall|i: int, j: int|
            0 <= i < ids@.len() && 0 <= j < ids@.len() && i != j implies ids@[i] != ids@[j] by {
            assert(refs[i] != refs[j]);
        }
    }
    ids
}

/// The set of the identifiers in a list.
pub fn from_slice(ids: &[u64]) -> (s: HashSet<u64>)
    ensures
        s@ == ids@.to_set(),
{
    let mut s: HashSet<u64> = HashSet::new();
    insert_all(&mut s, ids);
    assert(s@ =~= ids@.to_set());
    s
}

/// Adds every identifier of a list to a set.
pub fn insert_all(s: &mut HashSet<u64>, ids: &[u64])
    ensures
        final(s)@ == old(s)@.union(ids@.to_set()),
{
    let mut i: usize = 0;
    assert(s@ =~= old(s)@.union(ids@.take(0).to_set()));
    while i < ids.len()
        invariant
            i <= ids@.len(),
            s@ == old(s)@.union(ids@.take(i as int).to_set()),
        decreases ids@.len() - i,
    {
        s.insert(ids[i]);
        proof {
            let next = ids@.take(i + 1);
            let prev = ids@.take(i as int);
            assert(next == prev.push(ids@[i as int]));
            prev.lemma_push_to_set_commute(ids@[i as int]);
            assert(s@ =~= old(s)@.union(next.to_set()));
        }
        i = i + 1;
    }
    assert(ids@.take(i as int) == ids@);
}

/// A copy of a set.
pub fn copy(s: &HashSet<u64>) -> (c: HashSet<u64>)
    ensures
        c@ == s@,
{
    let ids = to_vec(s);
    from_slice(ids.as_slice())
}

}
