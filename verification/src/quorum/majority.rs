//! A set of voters that decides by majority.
use std::collections::{HashMap, HashSet};

use vstd::prelude::*;

use crate::quorum;
use crate::quorum::{AckedIndexer, Index, VoteResult};
use crate::sets;

verus! {

/// A set of voters that decides by majority.
#[derive(Debug, PartialEq, Eq)]
pub struct MajorityConfig {
    /// The voters.
    pub voters: HashSet<u64>,
}

impl View for MajorityConfig {
    type V = Set<u64>;

    open spec fn view(&self) -> Set<u64> {
        self.voters@
    }
}

impl Default for MajorityConfig {
    fn default() -> (c: Self)
        ensures
            c@ == Set::<u64>::empty(),
    {
        MajorityConfig { voters: HashSet::new() }
    }
}

impl Clone for MajorityConfig {
    fn clone(&self) -> (c: Self)
        ensures
            c@ == self@,
    {
        MajorityConfig { voters: sets::copy(&self.voters) }
    }
}

/// The size of a majority among `total` voters.
pub fn majority(total: usize) -> (q: usize)
    ensures
        q == quorum::majority_of(total as nat),
{
    total / 2 + 1
}

impl MajorityConfig {
    /// The configuration with the given voters.
    pub fn new(voters: HashSet<u64>) -> (c: Self)
        ensures
            c@ == voters@,
    {
        MajorityConfig { voters }
    }

    /// An empty configuration with room for `cap` voters.
    pub fn with_capacity(cap: usize) -> (c: Self)
        ensures
            c@ == Set::<u64>::empty(),
    {
        MajorityConfig { voters: HashSet::with_capacity(cap) }
    }

    /// The voters.
    pub fn ids(&self) -> (ids: &HashSet<u64>)
        ensures
            ids@ == self@,
    {
        &self.voters
    }

    /// The voters as a list, in no particular order.
    pub fn raw_slice(&self) -> (ids: Vec<u64>)
        ensures
            sets::enumerates(ids@, self@),
    {
        sets::to_vec(&self.voters)
    }

    /// Whether there is no voter.
    pub fn is_empty(&self) -> (b: bool)
        ensures
            b == self@.is_empty(),
    {
        self.voters.is_empty()
    }

    /// The number of voters.
    pub fn len(&self) -> (n: usize)
        ensures
            n == self@.len(),
    {
        self.voters.len()
    }

    /// Whether `id` is a voter.
    pub fn contains(&self, id: u64) -> (b: bool)
        ensures
            b == self@.contains(id),
    {
        self.voters.contains(&id)
    }

    /// Removes all voters.
    pub fn clear(&mut self)
        ensures
            final(self)@ == Set::<u64>::empty(),
    {
        self.voters.clear();
    }
}

/// What `l` knows of a voter, index 0 in no group when that is nothing.
fn ack<L: AckedIndexer>(l: &L, id: u64) -> (a: Index)
    ensures
        a == quorum::ack_of(l.acks(), id),
{
    match l.acked_index(id) {
        Some(a) => a,
        None => Index { index: 0, group_id: 0 },
    }
}

/// How many of the voters have acknowledged `index`.
fn count_at_least<L: AckedIndexer>(ids: &Vec<u64>, l: &L, index: u64) -> (n: usize)
    requires
        ids@.no_duplicates(),
    ensures
        n == quorum::at_least(ids@.to_set(), l.acks(), index).len(),
{
    let mut n: usize = 0;
    let mut i: usize = 0;
    let ghost acks = l.acks();
    let ghost p = |id: u64| quorum::ack_of(acks, id).index >= index;
    assert(ids@.take(0).to_set().filter(p) =~= Set::empty());
    while i < ids.len()
        invariant
            ids@.no_duplicates(),
            i <= ids@.len(),
            n <= i,
            acks == l.acks(),
            p == (|id: u64| quorum::ack_of(acks, id).index >= index),
            n == ids@.take(i as int).to_set().filter(p).len(),
        decreases ids@.len() - i,
    {
        proof {
            sets::lemma_take_next(ids@, i as int);
            quorum::lemma_filter_insert(ids@.take(i as int).to_set(), ids@[i as int], p);
        }
        if ack(l, ids[i]).index >= index {
            n = n + 1;
        }
        i = i + 1;
    }
    assert(ids@.take(i as int) == ids@);
    n
}

/// Whether two of the voters that have acknowledged `index` are in different commit groups.
fn spans_groups_at<L: AckedIndexer>(ids: &Vec<u64>, l: &L, index: u64) -> (b: bool)
    ensures
        b == quorum::spans_groups(
            quorum::at_least(ids@.to_set(), l.acks(), index),
            l.acks(),
        ),
{
    let ghost acks = l.acks();
    let ghost voters = quorum::at_least(ids@.to_set(), acks, index);
    let mut group: u64 = 0;
    let ghost mut holder: u64 = 0;
    let mut i: usize = 0;
    while i < ids.len()
        invariant
            i <= ids@.len(),
            acks == l.acks(),
            voters == quorum::at_least(ids@.to_set(), acks, index),
            group != 0 ==> voters.contains(holder) && quorum::ack_of(acks, holder).group_id
                == group,
            forall|j: int|
                0 <= j < i && voters.contains(#[trigger] ids@[j]) ==> quorum::ack_of(
                    acks,
                    ids@[j],
                ).group_id == 0 || quorum::ack_of(acks, ids@[j]).group_id == group,
        decreases ids@.len() - i,
    {
        let a = ack(l, ids[i]);
        assert(ids@.to_set().contains(ids@[i as int]));
        if a.index >= index && a.group_id != 0 {
            if group == 0 {
                group = a.group_id;
                proof {
                    holder = ids@[i as int];
                }
            } else if a.group_id != group {
                assert(voters.contains(holder) && voters.contains(ids@[i as int]));
                return true;
            }
        }
        i = i + 1;
    }
    assert forall|a: u64, b: u64| #[trigger]
        voters.contains(a) && #[trigger] voters.contains(b) && quorum::ack_of(
            acks,
            a,
        ).group_id != 0 && quorum::ack_of(acks, b).group_id
            != 0 implies quorum::ack_of(acks, a).group_id == quorum::ack_of(
        acks,
        b,
    ).group_id by {
        let x = choose|x: int| 0 <= x < ids@.len() && ids@[x] == a;
        let y = choose|y: int| 0 <= y < ids@.len() && ids@[y] == b;
        assert(ids@.contains(a) && ids@.contains(b));
        assert(voters.contains(ids@[x]) && voters.contains(ids@[y]));
    }
    false
}

/// The greatest index that `k` of the voters have acknowledged, two of them in different commit
/// groups where `spread` asks for it.
fn greatest<L: AckedIndexer>(ids: &Vec<u64>, l: &L, k: usize, spread: bool) -> (best: u64)
    requires
        ids@.no_duplicates(),
        1 <= k <= ids@.len(),
        spread ==> quorum::spans_groups(ids@.to_set(), l.acks()),
    ensures
        best == quorum::greatest_supported(ids@.to_set(), l.acks(), k as nat, spread),
{
    let ghost acks = l.acks();
    let ghost voters = ids@.to_set();
    let mut best: u64 = 0;
    let mut i: usize = 0;
    proof {
        ids@.unique_seq_to_set();
        assert(quorum::at_least(voters, acks, 0) =~= voters);
    }
    while i < ids.len()
        invariant
            i <= ids@.len(),
            ids@.no_duplicates(),
            acks == l.acks(),
            voters == ids@.to_set(),
            quorum::supported(voters, acks, k as nat, spread, best),
            forall|j: int|
                0 <= j < i && quorum::supported(
                    voters,
                    acks,
                    k as nat,
                    spread,
                    quorum::ack_of(acks, #[trigger] ids@[j]).index,
                ) ==> quorum::ack_of(acks, ids@[j]).index <= best,
        decreases ids@.len() - i,
    {
        let index = ack(l, ids[i]).index;
        if index > best && count_at_least(ids, l, index) >= k && (!spread || spans_groups_at(
            ids,
            l,
            index,
        )) {
            best = index;
        }
        i = i + 1;
    }
    proof {
        assert forall|index: u64| index > best implies !#[trigger] quorum::supported(
            voters,
            acks,
            k as nat,
            spread,
            index,
        ) by {
            if quorum::supported(voters, acks, k as nat, spread, index) {
                let m = quorum::lemma_supported_at_ack(voters, acks, k as nat, spread, index);
                assert(ids@.contains(m));
                let j = choose|j: int| 0 <= j < ids@.len() && ids@[j] == m;
                assert(ids@[j] == m);
            }
        }
        quorum::lemma_greatest_supported_unique(voters, acks, k as nat, spread, best);
    }
    best
}

/// Whether every voter is in a commit group.
fn all_grouped<L: AckedIndexer>(ids: &Vec<u64>, l: &L) -> (b: bool)
    ensures
        b == (forall|id: u64| #[trigger]
            ids@.to_set().contains(id) ==> quorum::ack_of(l.acks(), id).group_id != 0),
{
    let ghost acks = l.acks();
    let mut i: usize = 0;
    while i < ids.len()
        invariant
            i <= ids@.len(),
            acks == l.acks(),
            forall|j: int|
                0 <= j < i ==> quorum::ack_of(acks, #[trigger] ids@[j]).group_id != 0,
        decreases ids@.len() - i,
    {
        if ack(l, ids[i]).group_id == 0 {
            assert(ids@.to_set().contains(ids@[i as int]));
            return false;
        }
        i = i + 1;
    }
    assert forall|id: u64| #[trigger] ids@.to_set().contains(id) implies quorum::ack_of(
        acks,
        id,
    ).group_id != 0 by {
        let j = choose|j: int| 0 <= j < ids@.len() && ids@[j] == id;
        assert(ids@.contains(id));
        assert(ids@[j] == id);
    }
    true
}

impl MajorityConfig {
    /// The greatest index that the voters have committed, and whether commit groups decided it.
    pub fn committed_index<L: AckedIndexer>(&self, use_group_commit: bool, l: &L) -> (r: (
        u64,
        bool,
    ))
        ensures
            r == quorum::majority_committed(self@, l.acks(), use_group_commit),
    {
        let ids = sets::to_vec(&self.voters);
        let n: usize = ids.len();
        if self.voters.is_empty() {
            return (u64::MAX, true);
        }
        let q = majority(n);
        proof {
            if self@.len() == 0 {
                self@.lemma_len0_is_empty();
            }
            assert(quorum::at_least(self@, l.acks(), 0) =~= self@);
        }
        if !use_group_commit {
            (greatest(&ids, l, q, false), false)
        } else if spans_groups_at(&ids, l, 0) {
            (greatest(&ids, l, q, true), true)
        } else if all_grouped(&ids, l) {
            (greatest(&ids, l, q, false), false)
        } else {
            (greatest(&ids, l, n, false), false)
        }
    }

    /// The greatest index that lacks at most one acknowledgement for a majority; `u64::MAX` when
    /// a single acknowledgement is a majority, or none is needed.
    pub fn one_less_than_quorum<L: AckedIndexer>(&self, l: &L) -> (index: u64)
        ensures
            index == quorum::majority_one_less(self@, l.acks()),
    {
        let ids = sets::to_vec(&self.voters);
        let k: usize = ids.len() / 2;
        if k == 0 {
            proof {
                quorum::lemma_greatest_supported_unique(self@, l.acks(), 0, false, u64::MAX);
            }
            return u64::MAX;
        }
        greatest(&ids, l, k, false)
    }

    /// How many voters have granted their vote, and how many have not voted.
    fn count_votes(&self, votes: &HashMap<u64, bool>) -> (r: (usize, usize))
        ensures
            r.0 == quorum::granted(self@, votes@).len(),
            r.1 == quorum::missing(self@, votes@).len(),
            r.0 + r.1 <= self@.len(),
            self@.len() <= usize::MAX,
            self@.finite(),
    {
        let ids = sets::to_vec(&self.voters);
        let mut yes: usize = 0;
        let mut none: usize = 0;
        let mut i: usize = 0;
        let ghost m = votes@;
        let ghost py = |id: u64| m.contains_key(id) && m[id];
        let ghost pn = |id: u64| !m.contains_key(id);
        proof {
            assert(ids@.take(0).to_set().filter(py) =~= Set::empty());
            assert(ids@.take(0).to_set().filter(pn) =~= Set::empty());
        }
        while i < ids.len()
            invariant
                ids@.no_duplicates(),
                i <= ids@.len(),
                yes + none <= i,
                m == votes@,
                py == (|id: u64| m.contains_key(id) && m[id]),
                pn == (|id: u64| !m.contains_key(id)),
                yes == ids@.take(i as int).to_set().filter(py).len(),
                none == ids@.take(i as int).to_set().filter(pn).len(),
            decreases ids@.len() - i,
        {
            proof {
                let seen = ids@.take(i as int).to_set();
                sets::lemma_take_next(ids@, i as int);
                quorum::lemma_filter_insert(seen, ids@[i as int], py);
                quorum::lemma_filter_insert(seen, ids@[i as int], pn);
            }
            match votes.get(&ids[i]) {
                Some(v) => {
                    if *v {
                        yes = yes + 1;
                    }
                },
                None => {
                    none = none + 1;
                },
            }
            i = i + 1;
        }
        assert(ids@.take(i as int) == ids@);
        (yes, none)
    }

    /// The outcome of the election that `votes` record.
    pub fn vote_result(&self, votes: &HashMap<u64, bool>) -> (r: VoteResult)
        ensures
            r == quorum::majority_vote(self@, votes@),
    {
        self.vote_result_with_diff(votes).0
    }

    /// The outcome of the election that `votes` record, and how many more votes would win it.
    pub fn vote_result_with_diff(&self, votes: &HashMap<u64, bool>) -> (r: (VoteResult, usize))
        ensures
            r.0 == quorum::majority_vote(self@, votes@),
            r.1 == quorum::votes_needed(self@, votes@),
    {
        let (yes, none) = self.count_votes(votes);
        if self.voters.is_empty() {
            return (VoteResult::Won, 0);
        }
        let q = majority(self.voters.len());
        if yes >= q {
            (VoteResult::Won, 0)
        } else if yes + none >= q {
            (VoteResult::Pending, q - yes)
        } else {
            (VoteResult::Lost, q - yes)
        }
    }
}

}
