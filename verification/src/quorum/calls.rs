//! What callers of configurations see.
use std::collections::{HashMap, HashSet};

use vstd::prelude::*;

use crate::quorum::effects;
use crate::quorum::majority;
use crate::quorum::{AckedIndexer, JointConfig, MajorityConfig, VoteResult};
use crate::sets;

verus! {

/// A majority is the least number that is more than half.
pub proof fn law_majority(total: usize, q: usize)
    requires
        call_ensures(majority::majority, (total,), q),
    ensures
        2 * q > total,
        2 * (q - 1) <= total,
{
}

/// A configuration is made of the voters it is given, in one half.
pub proof fn law_new(voters: HashSet<u64>, m: MajorityConfig, j: JointConfig)
    requires
        call_ensures(MajorityConfig::new, (voters,), m),
        call_ensures(JointConfig::new, (voters,), j),
    ensures
        m.voters@ == voters@,
        j.incoming.voters@ == voters@,
        j.outgoing.voters@ == Set::<u64>::empty(),
{
}

/// A configuration with room for voters has none.
pub proof fn law_with_capacity(cap: usize, m: MajorityConfig, j: JointConfig, id: u64)
    requires
        call_ensures(MajorityConfig::with_capacity, (cap,), m),
        call_ensures(JointConfig::with_capacity, (cap,), j),
    ensures
        !m.voters@.contains(id),
        !j.incoming.voters@.contains(id),
        !j.outgoing.voters@.contains(id),
{
}

/// What a majority configuration says of its voters.
pub proof fn law_voters(
    c: &MajorityConfig,
    ids: &HashSet<u64>,
    listed: Vec<u64>,
    empty: bool,
    len: usize,
    id: u64,
    member: bool,
)
    requires
        call_ensures(MajorityConfig::ids, (c,), ids),
        call_ensures(MajorityConfig::raw_slice, (c,), listed),
        call_ensures(MajorityConfig::is_empty, (c,), empty),
        call_ensures(MajorityConfig::len, (c,), len),
        call_ensures(MajorityConfig::contains, (c, id), member),
    ensures
        ids@ == c.voters@,
        listed@.contains(id) <==> c.voters@.contains(id),
        listed@.no_duplicates(),
        empty <==> c.voters@.len() == 0,
        len == c.voters@.len(),
        member <==> c.voters@.contains(id),
{
    sets::law_enumeration_lists_each_member_once(listed@, c.voters@);
    sets::lemma_hash_set_finite(&c.voters);
    if c.voters@.len() == 0 {
        c.voters@.lemma_len0_is_empty();
    }
}

/// What a joint configuration says of its voters.
pub proof fn law_joint_voters(
    c: &JointConfig,
    ids: HashSet<u64>,
    id: u64,
    member: bool,
    singleton: bool,
)
    requires
        call_ensures(JointConfig::ids, (c,), ids),
        call_ensures(JointConfig::contains, (c, id), member),
        call_ensures(JointConfig::is_singleton, (c,), singleton),
    ensures
        ids@.contains(id) <==> c.incoming.voters@.contains(id) || c.outgoing.voters@.contains(id),
        member <==> c.incoming.voters@.contains(id) || c.outgoing.voters@.contains(id),
        singleton <==> c.outgoing.voters@.len() == 0 && c.incoming.voters@.len() == 1,
{
    sets::lemma_hash_set_finite(&c.outgoing.voters);
    if c.outgoing.voters@.len() == 0 {
        c.outgoing.voters@.lemma_len0_is_empty();
    }
}

/// Clearing removes all voters.
pub proof fn law_clear(m: &mut MajorityConfig, j: &mut JointConfig, id: u64)
    requires
        call_ensures(MajorityConfig::clear, (m,), ()),
        call_ensures(JointConfig::clear, (j,), ()),
    ensures
        !final(m).voters@.contains(id),
        !final(j).incoming.voters@.contains(id),
        !final(j).outgoing.voters@.contains(id),
{
}

/// An election is won with more than half in favour (or without voters), lost when at least half
/// declined, pending otherwise; and as many more votes win it as bring those in favour just above
/// half.
pub proof fn law_vote_result_with_diff(
    c: &MajorityConfig,
    votes: &HashMap<u64, bool>,
    r: (VoteResult, usize),
    yes: Set<u64>,
    no: Set<u64>,
)
    requires
        call_ensures(MajorityConfig::vote_result_with_diff, (c, votes), r),
        forall|id: u64| #[trigger]
            yes.contains(id) <==> c.voters@.contains(id) && votes@.contains_key(id) && votes@[id],
        forall|id: u64| #[trigger]
            no.contains(id) <==> c.voters@.contains(id) && votes@.contains_key(id) && !votes@[id],
    ensures
        r.0 == VoteResult::Won <==> c.voters@.len() == 0 || 2 * yes.len() > c.voters@.len(),
        r.0 == VoteResult::Lost <==> c.voters@.len() > 0 && 2 * no.len() >= c.voters@.len(),
        c.voters@.len() == 0 ==> r.1 == 0,
        c.voters@.len() > 0 ==> 2 * (yes.len() + r.1) > c.voters@.len(),
        r.1 > 0 ==> 2 * (yes.len() + r.1 - 1) <= c.voters@.len(),
{
    sets::lemma_hash_set_finite(&c.voters);
    effects::law_election_by_counting(c.voters@, votes@, yes, no);
    effects::law_votes_needed_by_counting(c.voters@, votes@, yes);
}

/// The outcome is the same with and without the number of votes that are needed.
pub proof fn law_vote_result(
    c: &MajorityConfig,
    votes: &HashMap<u64, bool>,
    r: VoteResult,
    with_diff: (VoteResult, usize),
)
    requires
        call_ensures(MajorityConfig::vote_result, (c, votes), r),
        call_ensures(MajorityConfig::vote_result_with_diff, (c, votes), with_diff),
    ensures
        r == with_diff.0,
{
}

/// An election of both halves is won where each is and lost where one is; it needs in each half
/// what that half needs.
pub proof fn law_joint_vote_result(
    c: &JointConfig,
    votes: &HashMap<u64, bool>,
    r: (VoteResult, [usize; 2]),
    plain: VoteResult,
    incoming: (VoteResult, usize),
    outgoing: (VoteResult, usize),
)
    requires
        call_ensures(JointConfig::vote_result_with_diff, (c, votes), r),
        call_ensures(JointConfig::vote_result, (c, votes), plain),
        call_ensures(MajorityConfig::vote_result_with_diff, (&c.incoming, votes), incoming),
        call_ensures(MajorityConfig::vote_result_with_diff, (&c.outgoing, votes), outgoing),
    ensures
        r.0 == VoteResult::Won <==> incoming.0 == VoteResult::Won && outgoing.0 == VoteResult::Won,
        r.0 == VoteResult::Lost <==> incoming.0 == VoteResult::Lost || outgoing.0
            == VoteResult::Lost,
        r.1@[0] == incoming.1,
        r.1@[1] == outgoing.1,
        plain == r.0,
{
    effects::law_joint_election(c@, votes@);
}

/// An index that more than half of the voters have acknowledged is committed, and a committed index
/// is such a one. Without voters everything is committed.
pub proof fn law_committed_index<L: AckedIndexer>(
    c: &MajorityConfig,
    l: &L,
    r: (u64, bool),
    backers: Set<u64>,
    index: u64,
) -> (holders: Set<u64>)
    requires
        call_ensures(MajorityConfig::committed_index::<L>, (c, false, l), r),
    ensures
        backers.subset_of(c.voters@) && 2 * backers.len() > c.voters@.len() && (forall|id: u64|
         #[trigger]
            backers.contains(id) ==> l.acks().contains_key(id) && l.acks()[id].index >= index)
            ==> r.0 >= index && !r.1,
        c.voters@.len() > 0 ==> {
            &&& holders.subset_of(c.voters@)
            &&& 2 * holders.len() > c.voters@.len()
            &&& forall|id: u64| #[trigger]
                holders.contains(id) && r.0 > 0 ==> l.acks().contains_key(id)
                    && l.acks()[id].index >= r.0
        },
        c.voters@.len() == 0 ==> r == (u64::MAX, true),
{
    sets::lemma_hash_set_finite(&c.voters);
    if backers.subset_of(c.voters@) && 2 * backers.len() > c.voters@.len() && (forall|id: u64|
     #[trigger]
        backers.contains(id) ==> l.acks().contains_key(id) && l.acks()[id].index >= index) {
        effects::law_majority_commits(c.voters@, l.acks(), backers, index);
    }
    if c.voters@.len() > 0 {
        effects::law_committed_has_majority(c.voters@, l.acks())
    } else {
        c.voters@.lemma_len0_is_empty();
        Set::empty()
    }
}

/// With group commit, an index that more than half of the voters, of two groups, have acknowledged
/// is committed, and where commit groups decided, a committed index is such a one.
pub proof fn law_committed_index_of_groups<L: AckedIndexer>(
    c: &MajorityConfig,
    l: &L,
    r: (u64, bool),
    backers: Set<u64>,
    a: u64,
    b: u64,
    index: u64,
) -> (holders: (Set<u64>, u64, u64))
    requires
        call_ensures(MajorityConfig::committed_index::<L>, (c, true, l), r),
    ensures
        backers.subset_of(c.voters@) && 2 * backers.len() > c.voters@.len() && (forall|id: u64|
         #[trigger]
            backers.contains(id) ==> l.acks().contains_key(id) && l.acks()[id].index >= index)
            && backers.contains(a) && backers.contains(b) && l.acks()[a].group_id != 0
            && l.acks()[b].group_id != 0 && l.acks()[a].group_id != l.acks()[b].group_id ==> r.0
            >= index && r.1,
        c.voters@.len() > 0 && r.1 ==> {
            &&& holders.0.subset_of(c.voters@)
            &&& 2 * holders.0.len() > c.voters@.len()
            &&& forall|id: u64| #[trigger]
                holders.0.contains(id) && r.0 > 0 ==> l.acks().contains_key(id)
                    && l.acks()[id].index >= r.0
            &&& holders.0.contains(holders.1) && holders.0.contains(holders.2)
            &&& l.acks()[holders.1].group_id != 0 && l.acks()[holders.2].group_id != 0
            &&& l.acks()[holders.1].group_id != l.acks()[holders.2].group_id
        },
{
    sets::lemma_hash_set_finite(&c.voters);
    if backers.subset_of(c.voters@) && 2 * backers.len() > c.voters@.len() && (forall|id: u64|
     #[trigger]
        backers.contains(id) ==> l.acks().contains_key(id) && l.acks()[id].index >= index)
        && backers.contains(a) && backers.contains(b) && l.acks()[a].group_id != 0
        && l.acks()[b].group_id != 0 && l.acks()[a].group_id != l.acks()[b].group_id {
        effects::law_two_groups_commit(c.voters@, l.acks(), backers, a, b, index);
    }
    if c.voters@.len() > 0 && r.1 {
        effects::law_group_commit_has_two_groups(c.voters@, l.acks())
    } else {
        (Set::empty(), 0, 0)
    }
}

/// With group commit, where no two voters belong to different groups: if all belong to one, the
/// committed index is that without group commit; if not, it is the greatest that all voters have
/// acknowledged.
pub proof fn law_committed_index_of_one_group<L: AckedIndexer>(
    c: &MajorityConfig,
    l: &L,
    r: (u64, bool),
    plain: (u64, bool),
    id: u64,
    index: u64,
)
    requires
        call_ensures(MajorityConfig::committed_index::<L>, (c, true, l), r),
        call_ensures(MajorityConfig::committed_index::<L>, (c, false, l), plain),
        c.voters@.len() > 0,
        forall|a: u64, b: u64| #[trigger]
            c.voters@.contains(a) && #[trigger] c.voters@.contains(b) && l.acks().contains_key(a)
                && l.acks().contains_key(b) && l.acks()[a].group_id != 0 && l.acks()[b].group_id
                != 0 ==> l.acks()[a].group_id == l.acks()[b].group_id,
    ensures
        ({
            let grouped = forall|v: u64| #[trigger]
                c.voters@.contains(v) ==> l.acks().contains_key(v) && l.acks()[v].group_id != 0;
            &&& !r.1
            &&& grouped ==> r.0 == plain.0
            &&& !grouped && c.voters@.contains(id) && r.0 > 0 ==> l.acks().contains_key(id)
                && l.acks()[id].index >= r.0
            &&& !grouped && (forall|v: u64| #[trigger]
                c.voters@.contains(v) ==> l.acks().contains_key(v) && l.acks()[v].index >= index)
                ==> r.0 >= index
        }),
{
    sets::lemma_hash_set_finite(&c.voters);
    effects::law_one_group_at_most(c.voters@, l.acks(), id, index);
}

/// What both halves have committed is committed.
pub proof fn law_joint_committed_index<L: AckedIndexer>(
    c: &JointConfig,
    group_commit: bool,
    l: &L,
    r: (u64, bool),
    incoming: (u64, bool),
    outgoing: (u64, bool),
)
    requires
        call_ensures(JointConfig::committed_index::<L>, (c, group_commit, l), r),
        call_ensures(
            MajorityConfig::committed_index::<L>,
            (&c.incoming, group_commit, l),
            incoming,
        ),
        call_ensures(
            MajorityConfig::committed_index::<L>,
            (&c.outgoing, group_commit, l),
            outgoing,
        ),
    ensures
        r.0 <= incoming.0 && r.0 <= outgoing.0,
        r.0 == incoming.0 || r.0 == outgoing.0,
        r.1 <==> incoming.1 && outgoing.1,
{
    effects::law_joint_commit(c@, l.acks(), group_commit);
}

/// The index that lacks at most one acknowledgement for more than half of the voters is such a one,
/// and the greatest; with fewer than two voters it is without bound.
pub proof fn law_one_less_than_quorum<L: AckedIndexer>(
    c: &MajorityConfig,
    l: &L,
    r: u64,
    backers: Set<u64>,
    index: u64,
) -> (holders: Set<u64>)
    requires
        call_ensures(MajorityConfig::one_less_than_quorum::<L>, (c, l), r),
    ensures
        backers.subset_of(c.voters@) && 2 * (backers.len() + 1) > c.voters@.len() && (forall|
            id: u64,
        | #[trigger]
            backers.contains(id) ==> l.acks().contains_key(id) && l.acks()[id].index >= index)
            ==> r >= index,
        holders.subset_of(c.voters@),
        2 * (holders.len() + 1) > c.voters@.len(),
        forall|id: u64| #[trigger]
            holders.contains(id) && r > 0 ==> l.acks().contains_key(id) && l.acks()[id].index >= r,
        c.voters@.len() < 2 ==> r == u64::MAX,
{
    sets::lemma_hash_set_finite(&c.voters);
    if backers.subset_of(c.voters@) && 2 * (backers.len() + 1) > c.voters@.len() && (forall|id: u64|
     #[trigger]
        backers.contains(id) ==> l.acks().contains_key(id) && l.acks()[id].index >= index) {
        effects::law_one_less_is_greatest(c.voters@, l.acks(), backers, index);
    }
    if c.voters@.len() < 2 {
        effects::law_one_less_is_greatest(c.voters@, l.acks(), Set::empty(), u64::MAX);
    }
    effects::law_one_less_lacks_one(c.voters@, l.acks())
}

}
