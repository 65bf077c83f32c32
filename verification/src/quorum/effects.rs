//! What quorums, elections and committed indexes are, told by counting voters.
use vstd::prelude::*;

use crate::quorum;
use crate::quorum::{Index, JointConfig, JointView, MajorityConfig, VoteResult};

verus! {

/// The views of configurations show their voters.
pub proof fn law_views_show_voters(majority: MajorityConfig, joint: JointConfig)
    ensures
        majority@ == majority.voters@,
        joint@.incoming == joint.incoming.voters@,
        joint@.outgoing == joint.outgoing.voters@,
        forall|id: u64| #[trigger]
            joint@.ids().contains(id) <==> joint@.incoming.contains(id) || joint@.outgoing.contains(
                id,
            ),
{
}

/// Among finitely many voters, with `yes` those who voted in favour and `no` those who declined, an
/// election is won with more than half in favour (or without voters), lost when at least half
/// declined, and pending otherwise.
pub proof fn law_election_by_counting(
    voters: Set<u64>,
    votes: Map<u64, bool>,
    yes: Set<u64>,
    no: Set<u64>,
)
    requires
        voters.finite(),
        forall|id: u64| #[trigger]
            yes.contains(id) <==> voters.contains(id) && votes.contains_key(id) && votes[id],
        forall|id: u64| #[trigger]
            no.contains(id) <==> voters.contains(id) && votes.contains_key(id) && !votes[id],
    ensures
        quorum::majority_vote(voters, votes) == VoteResult::Won <==> voters.len() == 0 || 2
            * yes.len() > voters.len(),
        quorum::majority_vote(voters, votes) == VoteResult::Lost <==> voters.len() > 0 && 2
            * no.len() >= voters.len(),
{
    assert(quorum::granted(voters, votes) =~= yes);
    assert(quorum::rejected(voters, votes) =~= no);
    quorum::laws::law_tally_is_complete(voters, votes);
    if voters.len() == 0 {
        voters.lemma_len0_is_empty();
    }
}

/// Of both halves, an election is won where each is, and lost where one is.
pub proof fn law_joint_election(conf: JointView, votes: Map<u64, bool>)
    ensures
        conf.vote(votes) == VoteResult::Won <==> quorum::majority_vote(conf.incoming, votes)
            == VoteResult::Won && quorum::majority_vote(conf.outgoing, votes) == VoteResult::Won,
        conf.vote(votes) == VoteResult::Lost <==> quorum::majority_vote(conf.incoming, votes)
            == VoteResult::Lost || quorum::majority_vote(conf.outgoing, votes) == VoteResult::Lost,
{
}

/// A tally counts the voters who voted in favour, those who declined and those who did not vote.
pub proof fn law_tally_by_voter(voters: Set<u64>, votes: Map<u64, bool>, id: u64)
    ensures
        quorum::granted(voters, votes).contains(id) <==> voters.contains(id) && votes.contains_key(
            id,
        ) && votes[id],
        quorum::rejected(voters, votes).contains(id) <==> voters.contains(id) && votes.contains_key(
            id,
        ) && !votes[id],
        quorum::missing(voters, votes).contains(id) <==> voters.contains(id)
            && !votes.contains_key(id),
{
}

/// As many votes are needed as bring those in favour just above half: that many more do, one fewer
/// do not.
pub proof fn law_votes_needed_by_counting(voters: Set<u64>, votes: Map<u64, bool>, yes: Set<u64>)
    requires
        voters.finite(),
        forall|id: u64| #[trigger]
            yes.contains(id) <==> voters.contains(id) && votes.contains_key(id) && votes[id],
    ensures
        ({
            let needed = quorum::votes_needed(voters, votes);
            &&& voters.len() == 0 ==> needed == 0
            &&& voters.len() > 0 ==> 2 * (yes.len() + needed) > voters.len()
            &&& needed > 0 ==> 2 * (yes.len() + needed - 1) <= voters.len()
        }),
{
    assert(quorum::granted(voters, votes) =~= yes);
    if voters.len() == 0 {
        voters.lemma_len0_is_empty();
    }
}

/// A quorum holds more than half of the voters of each half that has any.
pub proof fn law_quorum_by_counting(conf: JointView, active: Set<u64>)
    requires
        conf.incoming.finite(),
        conf.outgoing.finite(),
    ensures
        conf.has_quorum(active) <==> {
            &&& conf.incoming.len() == 0 || 2 * conf.incoming.intersect(active).len()
                > conf.incoming.len()
            &&& conf.outgoing.len() == 0 || 2 * conf.outgoing.intersect(active).len()
                > conf.outgoing.len()
        },
{
    if conf.incoming.len() == 0 {
        conf.incoming.lemma_len0_is_empty();
    }
    if conf.outgoing.len() == 0 {
        conf.outgoing.lemma_len0_is_empty();
    }
}

/// Where enough voters are known to have acknowledged an index, it is supported.
proof fn lemma_backed(
    voters: Set<u64>,
    acks: Map<u64, Index>,
    backers: Set<u64>,
    index: u64,
    k: nat,
    spread: bool,
)
    requires
        voters.finite(),
        backers.subset_of(voters),
        backers.len() >= k,
        forall|id: u64| #[trigger]
            backers.contains(id) ==> acks.contains_key(id) && acks[id].index >= index,
        spread ==> exists|a: u64, b: u64| #[trigger]
            backers.contains(a) && #[trigger] backers.contains(b) && acks[a].group_id != 0
                && acks[b].group_id != 0 && acks[a].group_id != acks[b].group_id,
    ensures
        quorum::supported(voters, acks, k, spread, index),
        quorum::greatest_supported(voters, acks, k, spread) >= index,
{
    let all = quorum::at_least(voters, acks, index);
    vstd::set_lib::lemma_len_subset(all, voters);
    assert(backers.subset_of(all));
    vstd::set_lib::lemma_len_subset(backers, all);
    if spread {
        let (a, b) = choose|a: u64, b: u64| #[trigger]
            backers.contains(a) && #[trigger] backers.contains(b) && acks[a].group_id != 0
                && acks[b].group_id != 0 && acks[a].group_id != acks[b].group_id;
        assert(all.contains(a) && all.contains(b));
    }
    quorum::lemma_greatest_from(voters, acks, k, spread, index);
}

/// An index that more than half of the voters have acknowledged is committed.
pub proof fn law_majority_commits(
    voters: Set<u64>,
    acks: Map<u64, Index>,
    backers: Set<u64>,
    index: u64,
)
    requires
        voters.finite(),
        backers.subset_of(voters),
        2 * backers.len() > voters.len(),
        forall|id: u64| #[trigger]
            backers.contains(id) ==> acks.contains_key(id) && acks[id].index >= index,
    ensures
        quorum::majority_committed(voters, acks, false).0 >= index,
        !quorum::majority_committed(voters, acks, false).1,
{
    vstd::set_lib::lemma_len_subset(backers, voters);
    lemma_backed(voters, acks, backers, index, quorum::majority_of(voters.len()), false);
}

/// A committed index is one that more than half of the voters have acknowledged.
pub proof fn law_committed_has_majority(voters: Set<u64>, acks: Map<u64, Index>) -> (backers: Set<
    u64,
>)
    requires
        voters.finite(),
        voters.len() > 0,
    ensures
        backers.subset_of(voters),
        2 * backers.len() > voters.len(),
        forall|id: u64| #[trigger]
            backers.contains(id) && quorum::majority_committed(voters, acks, false).0 > 0
                ==> acks.contains_key(id) && acks[id].index >= quorum::majority_committed(
                voters,
                acks,
                false,
            ).0,
{
    let c = quorum::majority_committed(voters, acks, false).0;
    let k = quorum::majority_of(voters.len());
    quorum::lemma_all_support_zero(voters, acks, k, false);
    quorum::lemma_greatest_from(voters, acks, k, false, 0);
    quorum::at_least(voters, acks, c)
}

/// With group commit, where voters belong to two groups, an index that more than half of them, of
/// two groups, have acknowledged is committed.
pub proof fn law_two_groups_commit(
    voters: Set<u64>,
    acks: Map<u64, Index>,
    backers: Set<u64>,
    a: u64,
    b: u64,
    index: u64,
)
    requires
        voters.finite(),
        backers.subset_of(voters),
        2 * backers.len() > voters.len(),
        forall|id: u64| #[trigger]
            backers.contains(id) ==> acks.contains_key(id) && acks[id].index >= index,
        backers.contains(a),
        backers.contains(b),
        acks[a].group_id != 0,
        acks[b].group_id != 0,
        acks[a].group_id != acks[b].group_id,
    ensures
        quorum::majority_committed(voters, acks, true).0 >= index,
        quorum::majority_committed(voters, acks, true).1,
{
    assert(voters.contains(a) && voters.contains(b));
    assert(quorum::spans_groups(voters, acks));
    lemma_backed(voters, acks, backers, index, quorum::majority_of(voters.len()), true);
}

/// With group commit, an index that commit groups decided is one that more than half of the
/// voters have acknowledged, two of different groups among them.
pub proof fn law_group_commit_has_two_groups(voters: Set<u64>, acks: Map<u64, Index>) -> (r: (
    Set<u64>,
    u64,
    u64,
))
    requires
        voters.finite(),
        voters.len() > 0,
        quorum::majority_committed(voters, acks, true).1,
    ensures
        ({
            let (backers, a, b) = r;
            let c = quorum::majority_committed(voters, acks, true).0;
            &&& backers.subset_of(voters)
            &&& 2 * backers.len() > voters.len()
            &&& forall|id: u64| #[trigger]
                backers.contains(id) && c > 0 ==> acks.contains_key(id) && acks[id].index >= c
            &&& backers.contains(a) && backers.contains(b)
            &&& acks.contains_key(a) && acks.contains_key(b)
            &&& acks[a].group_id != 0 && acks[b].group_id != 0
            &&& acks[a].group_id != acks[b].group_id
        }),
{
    let c = quorum::majority_committed(voters, acks, true).0;
    let k = quorum::majority_of(voters.len());
    quorum::lemma_all_support_zero(voters, acks, k, true);
    quorum::lemma_greatest_from(voters, acks, k, true, 0);
    let backers = quorum::at_least(voters, acks, c);
    let (a, b) = choose|a: u64, b: u64| #[trigger]
        backers.contains(a) && #[trigger] backers.contains(b) && quorum::ack_of(acks, a).group_id
            != 0 && quorum::ack_of(acks, b).group_id != 0 && quorum::ack_of(acks, a).group_id
            != quorum::ack_of(acks, b).group_id;
    (backers, a, b)
}

/// With group commit, where no two voters belong to different groups: if all belong to one, the
/// committed index is that without group commit. If not, it is the greatest that all voters have
/// acknowledged. Commit groups decide neither.
pub proof fn law_one_group_at_most(
    voters: Set<u64>,
    acks: Map<u64, Index>,
    id: u64,
    index: u64,
)
    requires
        voters.finite(),
        voters.len() > 0,
        forall|a: u64, b: u64| #[trigger]
            voters.contains(a) && #[trigger] voters.contains(b) && acks.contains_key(a)
                && acks.contains_key(b) && acks[a].group_id != 0 && acks[b].group_id != 0
                ==> acks[a].group_id == acks[b].group_id,
    ensures
        ({
            let c = quorum::majority_committed(voters, acks, true);
            let grouped = forall|v: u64| #[trigger]
                voters.contains(v) ==> acks.contains_key(v) && acks[v].group_id != 0;
            &&& !c.1
            &&& grouped ==> c.0 == quorum::majority_committed(voters, acks, false).0
            &&& !grouped && voters.contains(id) && c.0 > 0 ==> acks.contains_key(id)
                && acks[id].index >= c.0
            &&& !grouped && (forall|v: u64| #[trigger]
                voters.contains(v) ==> acks.contains_key(v) && acks[v].index >= index) ==> c.0
                >= index
        }),
{
    assert(!quorum::spans_groups(voters, acks));
    let n = voters.len();
    let c = quorum::majority_committed(voters, acks, true);
    quorum::lemma_all_support_zero(voters, acks, n, false);
    quorum::lemma_greatest_from(voters, acks, n, false, 0);
    if forall|v: u64| #[trigger]
        voters.contains(v) ==> acks.contains_key(v) && acks[v].index >= index {
        lemma_backed(voters, acks, voters, index, n, false);
    }
    let all = quorum::at_least(
        voters,
        acks,
        quorum::greatest_supported(voters, acks, n, false),
    );
    vstd::set_lib::lemma_len_subset(all, voters);
    vstd::set_lib::lemma_subset_equality(all, voters);
    assert(voters.contains(id) ==> all.contains(id));
}

/// Without voters everything is committed. Both halves must have committed an index, one of them
/// no more than that, and commit groups decide it where they do in both.
pub proof fn law_joint_commit(conf: JointView, acks: Map<u64, Index>, group_commit: bool)
    ensures
        ({
            let c = conf.committed(acks, group_commit);
            let i = quorum::majority_committed(conf.incoming, acks, group_commit);
            let o = quorum::majority_committed(conf.outgoing, acks, group_commit);
            &&& c.0 <= i.0 && c.0 <= o.0
            &&& c.0 == i.0 || c.0 == o.0
            &&& c.1 <==> i.1 && o.1
            &&& (forall|id: u64| !#[trigger] conf.incoming.contains(id)) ==> i == (u64::MAX, true)
            &&& (forall|id: u64| !#[trigger] conf.outgoing.contains(id)) ==> o == (u64::MAX, true)
        }),
{
    if forall|id: u64| !#[trigger] conf.incoming.contains(id) {
        assert(conf.incoming =~= Set::empty());
    }
    if forall|id: u64| !#[trigger] conf.outgoing.contains(id) {
        assert(conf.outgoing =~= Set::empty());
    }
}

/// An index that lacks at most one acknowledgement for more than half of two or more voters is at
/// most the one that is returned; with fewer voters any index does.
pub proof fn law_one_less_is_greatest(
    voters: Set<u64>,
    acks: Map<u64, Index>,
    backers: Set<u64>,
    index: u64,
)
    requires
        voters.finite(),
        backers.subset_of(voters),
        2 * (backers.len() + 1) > voters.len(),
        forall|id: u64| #[trigger]
            backers.contains(id) ==> acks.contains_key(id) && acks[id].index >= index,
    ensures
        quorum::majority_one_less(voters, acks) >= index,
{
    lemma_backed(voters, acks, backers, index, voters.len() / 2, false);
}

/// The index that is returned lacks at most one acknowledgement for more than half of the voters.
pub proof fn law_one_less_lacks_one(voters: Set<u64>, acks: Map<u64, Index>) -> (backers: Set<u64>)
    requires
        voters.finite(),
    ensures
        backers.subset_of(voters),
        2 * (backers.len() + 1) > voters.len(),
        forall|id: u64| #[trigger]
            backers.contains(id) && quorum::majority_one_less(voters, acks) > 0
                ==> acks.contains_key(id) && acks[id].index >= quorum::majority_one_less(
                voters,
                acks,
            ),
{
    let k = voters.len() / 2;
    quorum::lemma_all_support_zero(voters, acks, k, false);
    quorum::lemma_greatest_from(voters, acks, k, false, 0);
    quorum::at_least(voters, acks, quorum::majority_one_less(voters, acks))
}

}
