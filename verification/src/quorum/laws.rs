//! What holds of quorums, elections and committed indexes in general.
use vstd::prelude::*;

use crate::quorum;
use crate::quorum::{Index, JointView};

verus! {

/// `later` holds all votes of `earlier`, unchanged, and possibly more.
pub open spec fn extends(later: Map<u64, bool>, earlier: Map<u64, bool>) -> bool {
    forall|id: u64| #[trigger]
        earlier.contains_key(id) ==> later.contains_key(id) && later[id] == earlier[id]
}

/// Every voter has acknowledged in `later` at least what it had in `earlier`.
pub open spec fn advances(later: Map<u64, Index>, earlier: Map<u64, Index>) -> bool {
    forall|id: u64|
        quorum::ack_of(earlier, id).index <= (#[trigger] quorum::ack_of(later, id)).index
}

/// Two majorities of the same voters have a voter in common.
proof fn lemma_majorities_intersect(voters: Set<u64>, a: Set<u64>, b: Set<u64>) -> (id: u64)
    requires
        voters.finite(),
        !voters.is_empty(),
        quorum::is_majority(voters, a),
        quorum::is_majority(voters, b),
    ensures
        voters.contains(id) && a.contains(id) && b.contains(id),
{
    let va = voters.intersect(a);
    let vb = voters.intersect(b);
    if va.disjoint(vb) {
        vstd::set_lib::lemma_set_disjoint_lens(va, vb);
        vstd::set_lib::lemma_len_subset(va + vb, voters);
        assert(false);
    }
    let id = choose|id: u64| va.contains(id) && vb.contains(id);
    id
}

/// Two quorums of a configuration have a voter in common in each half that has voters, so that no
/// two of them can decide differently.
pub proof fn law_quorums_intersect(conf: JointView, a: Set<u64>, b: Set<u64>)
    requires
        conf.incoming.finite(),
        conf.outgoing.finite(),
        conf.has_quorum(a),
        conf.has_quorum(b),
    ensures
        !conf.incoming.is_empty() ==> exists|id: u64| #[trigger]
            conf.incoming.contains(id) && a.contains(id) && b.contains(id),
        !conf.outgoing.is_empty() ==> exists|id: u64| #[trigger]
            conf.outgoing.contains(id) && a.contains(id) && b.contains(id),
{
    if !conf.incoming.is_empty() {
        let id = lemma_majorities_intersect(conf.incoming, a, b);
        assert(conf.incoming.contains(id));
    }
    if !conf.outgoing.is_empty() {
        let id = lemma_majorities_intersect(conf.outgoing, a, b);
        assert(conf.outgoing.contains(id));
    }
}

/// More active nodes never break a quorum.
pub proof fn law_quorum_grows(conf: JointView, active: Set<u64>, more: Set<u64>)
    requires
        conf.incoming.finite(),
        conf.outgoing.finite(),
        active.subset_of(more),
        conf.has_quorum(active),
    ensures
        conf.has_quorum(more),
{
    vstd::set_lib::lemma_len_subset(conf.incoming.intersect(active), conf.incoming.intersect(more));
    vstd::set_lib::lemma_len_subset(conf.outgoing.intersect(active), conf.outgoing.intersect(more));
}

/// In a half of a configuration, further votes change neither a won nor a lost election.
proof fn lemma_majority_outcome_stands(
    voters: Set<u64>,
    earlier: Map<u64, bool>,
    later: Map<u64, bool>,
)
    requires
        voters.finite(),
        extends(later, earlier),
    ensures
        !(quorum::majority_vote(voters, earlier) is Pending) ==> quorum::majority_vote(
            voters,
            later,
        ) == quorum::majority_vote(voters, earlier),
{
    let g1 = quorum::granted(voters, earlier);
    let g2 = quorum::granted(voters, later);
    let m1 = quorum::missing(voters, earlier);
    let m2 = quorum::missing(voters, later);
    vstd::set_lib::lemma_len_subset(g1 + m1, voters);
    vstd::set_lib::lemma_len_subset(g2 + m2, voters);
    vstd::set_lib::lemma_set_disjoint_lens(g1, m1);
    vstd::set_lib::lemma_set_disjoint_lens(g2, m2);
    vstd::set_lib::lemma_len_subset(g1, g2);
    vstd::set_lib::lemma_len_subset(g2 + m2, g1 + m1);
}

/// Once an election is won or lost, further votes do not change that.
pub proof fn law_outcome_stands(
    conf: JointView,
    earlier: Map<u64, bool>,
    later: Map<u64, bool>,
)
    requires
        conf.incoming.finite(),
        conf.outgoing.finite(),
        extends(later, earlier),
        !(conf.vote(earlier) is Pending),
    ensures
        conf.vote(later) == conf.vote(earlier),
{
    lemma_majority_outcome_stands(conf.incoming, earlier, later);
    lemma_majority_outcome_stands(conf.outgoing, earlier, later);
}

/// Once all voters have voted, the election is won or lost.
pub proof fn law_all_votes_decide(conf: JointView, votes: Map<u64, bool>)
    requires
        conf.ids().subset_of(votes.dom()),
    ensures
        !(conf.vote(votes) is Pending),
{
    assert(quorum::missing(conf.incoming, votes) =~= Set::empty());
    assert(quorum::missing(conf.outgoing, votes) =~= Set::empty());
}

/// An election is won exactly when no more votes are needed in either half.
pub proof fn law_won_when_none_needed(conf: JointView, votes: Map<u64, bool>)
    ensures
        conf.vote(votes) is Won <==> quorum::votes_needed(conf.incoming, votes) == 0
            && quorum::votes_needed(conf.outgoing, votes) == 0,
{
}

/// Votes from as many further voters as are needed in each half win the election.
pub proof fn law_needed_votes_win(conf: JointView, earlier: Map<u64, bool>, later: Map<u64, bool>)
    requires
        quorum::granted(conf.incoming, later).len() >= quorum::granted(
            conf.incoming,
            earlier,
        ).len() + quorum::votes_needed(conf.incoming, earlier),
        quorum::granted(conf.outgoing, later).len() >= quorum::granted(
            conf.outgoing,
            earlier,
        ).len() + quorum::votes_needed(conf.outgoing, earlier),
    ensures
        conf.vote(later) is Won,
{
}

/// Every voter has granted its vote, declined, or not voted yet.
pub proof fn law_tally_is_complete(voters: Set<u64>, votes: Map<u64, bool>)
    requires
        voters.finite(),
    ensures
        quorum::granted(voters, votes).len() + quorum::rejected(voters, votes).len()
            + quorum::missing(voters, votes).len() == voters.len(),
{
    let granted = quorum::granted(voters, votes);
    let rejected = quorum::rejected(voters, votes);
    let missing = quorum::missing(voters, votes);
    vstd::set_lib::lemma_len_subset(granted, voters);
    vstd::set_lib::lemma_len_subset(rejected, voters);
    vstd::set_lib::lemma_len_subset(missing, voters);
    vstd::set_lib::lemma_set_disjoint_lens(granted, rejected);
    vstd::set_lib::lemma_set_disjoint_lens(granted + rejected, missing);
    assert(granted + rejected + missing =~= voters);
}

/// Outside a membership change the incoming half decides alone.
pub proof fn law_incoming_decides_alone(
    voters: Set<u64>,
    votes: Map<u64, bool>,
    acks: Map<u64, Index>,
    group_commit: bool,
    active: Set<u64>,
)
    ensures
        ({
            let conf = JointView { incoming: voters, outgoing: Set::empty() };
            &&& conf.vote(votes) == quorum::majority_vote(voters, votes)
            &&& conf.committed(acks, group_commit) == quorum::majority_committed(
                voters,
                acks,
                group_commit,
            )
            &&& conf.has_quorum(active) == quorum::is_majority(voters, active)
        }),
{
}

/// A committed index is one that a majority has acknowledged.
proof fn lemma_committed_is_supported(
    voters: Set<u64>,
    acks: Map<u64, Index>,
    group_commit: bool,
)
    requires
        voters.finite(),
        !voters.is_empty(),
    ensures
        quorum::supported(
            voters,
            acks,
            quorum::majority_of(voters.len()),
            false,
            quorum::majority_committed(voters, acks, group_commit).0,
        ),
{
    let n = voters.len();
    let q = quorum::majority_of(n);
    if n == 0 {
        voters.lemma_len0_is_empty();
    }
    quorum::lemma_all_support_zero(voters, acks, q, false);
    quorum::lemma_all_support_zero(voters, acks, n, false);
    quorum::lemma_greatest_from(voters, acks, q, false, 0);
    quorum::lemma_greatest_from(voters, acks, n, false, 0);
    if quorum::spans_groups(voters, acks) {
        quorum::lemma_all_support_zero(voters, acks, q, true);
        quorum::lemma_greatest_from(voters, acks, q, true, 0);
    }
}

/// Whatever index is committed, with or without commit groups, every quorum holds a voter of each
/// half that has acknowledged it: a committed entry is not lost as long as a quorum is left.
pub proof fn law_quorum_knows_committed(
    conf: JointView,
    acks: Map<u64, Index>,
    group_commit: bool,
    active: Set<u64>,
)
    requires
        conf.incoming.finite(),
        conf.outgoing.finite(),
        conf.has_quorum(active),
    ensures
        ({
            let committed = conf.committed(acks, group_commit).0;
            &&& !conf.incoming.is_empty() ==> exists|id: u64| #[trigger]
                conf.incoming.contains(id) && active.contains(id) && quorum::ack_of(acks, id).index
                    >= committed
            &&& !conf.outgoing.is_empty() ==> exists|id: u64| #[trigger]
                conf.outgoing.contains(id) && active.contains(id) && quorum::ack_of(acks, id).index
                    >= committed
        }),
{
    if !conf.incoming.is_empty() {
        lemma_majority_knows_committed(conf.incoming, acks, group_commit, active);
    }
    if !conf.outgoing.is_empty() {
        lemma_majority_knows_committed(conf.outgoing, acks, group_commit, active);
    }
}

proof fn lemma_majority_knows_committed(
    voters: Set<u64>,
    acks: Map<u64, Index>,
    group_commit: bool,
    active: Set<u64>,
)
    requires
        voters.finite(),
        !voters.is_empty(),
        quorum::is_majority(voters, active),
    ensures
        exists|id: u64| #[trigger]
            voters.contains(id) && active.contains(id) && quorum::ack_of(acks, id).index
                >= quorum::majority_committed(voters, acks, group_commit).0,
{
    let backers = quorum::at_least(
        voters,
        acks,
        quorum::majority_committed(voters, acks, group_commit).0,
    );
    lemma_committed_is_supported(voters, acks, group_commit);
    assert(voters.intersect(backers) =~= backers);
    let id = lemma_majorities_intersect(voters, backers, active);
    assert(voters.contains(id) && backers.contains(id));
}

/// The committed index never falls while acknowledgements advance.
pub proof fn law_committed_advances(
    conf: JointView,
    earlier: Map<u64, Index>,
    later: Map<u64, Index>,
)
    requires
        conf.incoming.finite(),
        conf.outgoing.finite(),
        advances(later, earlier),
    ensures
        conf.committed(earlier, false).0 <= conf.committed(later, false).0,
{
    lemma_majority_committed_advances(conf.incoming, earlier, later);
    lemma_majority_committed_advances(conf.outgoing, earlier, later);
}

proof fn lemma_majority_committed_advances(
    voters: Set<u64>,
    earlier: Map<u64, Index>,
    later: Map<u64, Index>,
)
    requires
        voters.finite(),
        advances(later, earlier),
    ensures
        quorum::majority_committed(voters, earlier, false).0 <= quorum::majority_committed(
            voters,
            later,
            false,
        ).0,
{
    if !voters.is_empty() {
        let index = quorum::majority_committed(voters, earlier, false).0;
        lemma_committed_is_supported(voters, earlier, false);
        let before = quorum::at_least(voters, earlier, index);
        let after = quorum::at_least(voters, later, index);
        vstd::set_lib::lemma_len_subset(after, voters);
        assert(before.subset_of(after));
        vstd::set_lib::lemma_len_subset(before, after);
        quorum::lemma_greatest_from(voters, later, quorum::majority_of(voters.len()), false, index);
    }
}

/// Group commit only ever holds the committed index back.
pub proof fn law_group_commit_holds_back(conf: JointView, acks: Map<u64, Index>)
    requires
        conf.incoming.finite(),
        conf.outgoing.finite(),
    ensures
        conf.committed(acks, true).0 <= conf.committed(acks, false).0,
{
    lemma_majority_group_commit_holds_back(conf.incoming, acks);
    lemma_majority_group_commit_holds_back(conf.outgoing, acks);
}

proof fn lemma_majority_group_commit_holds_back(voters: Set<u64>, acks: Map<u64, Index>)
    requires
        voters.finite(),
    ensures
        quorum::majority_committed(voters, acks, true).0 <= quorum::majority_committed(
            voters,
            acks,
            false,
        ).0,
{
    if !voters.is_empty() {
        lemma_committed_is_supported(voters, acks, true);
        quorum::lemma_greatest_from(
            voters,
            acks,
            quorum::majority_of(voters.len()),
            false,
            quorum::majority_committed(voters, acks, true).0,
        );
    }
}

/// The index that lacks at most one acknowledgement for a majority is no less than the committed
/// one, and the acknowledgement of one more voter, such as the witness, commits it.
pub proof fn law_one_more_ack_commits(
    voters: Set<u64>,
    acks: Map<u64, Index>,
    witness: u64,
    ack: Index,
)
    requires
        voters.finite(),
        voters.contains(witness),
        quorum::ack_of(acks, witness).index < quorum::majority_one_less(voters, acks),
        ack.index >= quorum::majority_one_less(voters, acks),
    ensures
        quorum::majority_committed(voters, acks, false).0 <= quorum::majority_one_less(
            voters,
            acks,
        ),
        quorum::majority_one_less(voters, acks) <= quorum::majority_committed(
            voters,
            acks.insert(witness, ack),
            false,
        ).0,
{
    let n = voters.len();
    let index = quorum::majority_one_less(voters, acks);
    let after = acks.insert(witness, ack);
    quorum::lemma_all_support_zero(voters, acks, n / 2, false);
    quorum::lemma_greatest_from(voters, acks, n / 2, false, 0);
    lemma_committed_is_supported(voters, acks, false);
    quorum::lemma_greatest_from(
        voters,
        acks,
        n / 2,
        false,
        quorum::majority_committed(voters, acks, false).0,
    );
    let before = quorum::at_least(voters, acks, index);
    vstd::set_lib::lemma_len_subset(before, voters);
    vstd::set_lib::lemma_len_subset(quorum::at_least(voters, after, index), voters);
    assert(before.insert(witness).subset_of(quorum::at_least(voters, after, index)));
    vstd::set_lib::lemma_len_subset(
        before.insert(witness),
        quorum::at_least(voters, after, index),
    );
    quorum::lemma_greatest_from(voters, after, quorum::majority_of(n), false, index);
}

}
