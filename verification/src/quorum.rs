//! Majority and joint quorums: who has won an election, and up to which index the
//! log is committed.
use vstd::prelude::*;

pub mod calls;
pub mod effects;
pub mod joint;
pub mod laws;
pub mod majority;

pub use joint::JointConfig;
pub use majority::MajorityConfig;

verus! {

/// A log index that a voter has acknowledged, with the commit group of the voter.
#[derive(Clone, Copy, Debug, PartialEq, Eq, Structural)]
pub struct Index {
    /// The acknowledged index.
    pub index: u64,
    /// The commit group of the voter, 0 for none.
    pub group_id: u64,
}

/// A source of acknowledged indexes.
pub trait AckedIndexer {
    /// The acknowledged index of each voter that has one.
    spec fn acks(&self) -> Map<u64, Index>;

    /// Looks up the acknowledged index of a voter.
    fn acked_index(&self, voter_id: u64) -> (r: Option<Index>)
        ensures
            r == self.acks().get(voter_id),
    ;
}

/// What a voter has acknowledged; index 0 in no group when nothing is known of it.
pub open spec fn ack_of(acks: Map<u64, Index>, id: u64) -> Index {
    if acks.contains_key(id) {
        acks[id]
    } else {
        Index { index: 0, group_id: 0 }
    }
}

/// The members of `voters` that have acknowledged `index` or more.
pub open spec fn at_least(voters: Set<u64>, acks: Map<u64, Index>, index: u64) -> Set<u64> {
    voters.filter(|id: u64| ack_of(acks, id).index >= index)
}

/// Two members of `voters` belong to different commit groups.
pub open spec fn spans_groups(voters: Set<u64>, acks: Map<u64, Index>) -> bool {
    exists|a: u64, b: u64| #[trigger]
        voters.contains(a) && #[trigger] voters.contains(b) && ack_of(acks, a).group_id != 0
            && ack_of(acks, b).group_id != 0 && ack_of(acks, a).group_id != ack_of(acks, b).group_id
}

/// At least `k` voters have acknowledged `index`, and, where `spread` is asked for, two of them
/// belong to different commit groups.
pub open spec fn supported(
    voters: Set<u64>,
    acks: Map<u64, Index>,
    k: nat,
    spread: bool,
    index: u64,
) -> bool {
    &&& at_least(voters, acks, index).len() >= k
    &&& spread ==> spans_groups(at_least(voters, acks, index), acks)
}

/// `index` is supported and no greater index is.
pub open spec fn is_greatest_supported(
    voters: Set<u64>,
    acks: Map<u64, Index>,
    k: nat,
    spread: bool,
    index: u64,
) -> bool {
    &&& supported(voters, acks, k, spread, index)
    &&& forall|i: u64| i > index ==> !#[trigger] supported(voters, acks, k, spread, i)
}

/// The greatest supported index.
pub open spec fn greatest_supported(
    voters: Set<u64>,
    acks: Map<u64, Index>,
    k: nat,
    spread: bool,
) -> u64 {
    choose|index: u64| is_greatest_supported(voters, acks, k, spread, index)
}

/// The size of a majority among `total` voters.
pub open spec fn majority_of(total: nat) -> nat {
    total / 2 + 1
}

/// The committed index of a majority configuration, and whether commit groups decided it.
///
/// An empty configuration commits everything, so that it never holds back the other half of a
/// joint one. Without group commit the committed index is the greatest one that a majority has
/// acknowledged. With it, the majority must also span two commit groups where the voters do;
/// where they do not, a voter without a group holds the index back to what all have.
pub open spec fn majority_committed(
    voters: Set<u64>,
    acks: Map<u64, Index>,
    group_commit: bool,
) -> (u64, bool) {
    let quorum = majority_of(voters.len());
    if voters.is_empty() {
        (u64::MAX, true)
    } else if !group_commit {
        (greatest_supported(voters, acks, quorum, false), false)
    } else if spans_groups(voters, acks) {
        (greatest_supported(voters, acks, quorum, true), true)
    } else if forall|id: u64| #[trigger] voters.contains(id) ==> ack_of(acks, id).group_id != 0 {
        (greatest_supported(voters, acks, quorum, false), false)
    } else {
        (greatest_supported(voters, acks, voters.len(), false), false)
    }
}

/// The greatest index that lacks at most one acknowledgement for a majority.
pub open spec fn majority_one_less(voters: Set<u64>, acks: Map<u64, Index>) -> u64 {
    greatest_supported(voters, acks, voters.len() / 2, false)
}

/// The outcome of an election.
#[derive(Clone, Copy, Debug, PartialEq, Eq, Structural)]
pub enum VoteResult {
    /// Won or lost only once more votes have come in.
    Pending,
    /// Lost, whatever the outstanding votes say.
    Lost,
    /// Won.
    Won,
}

/// The voters that have granted their vote.
pub open spec fn granted(voters: Set<u64>, votes: Map<u64, bool>) -> Set<u64> {
    voters.filter(|id: u64| votes.contains_key(id) && votes[id])
}

/// The voters that have declined.
pub open spec fn rejected(voters: Set<u64>, votes: Map<u64, bool>) -> Set<u64> {
    voters.filter(|id: u64| votes.contains_key(id) && !votes[id])
}

/// The voters that have not voted yet.
pub open spec fn missing(voters: Set<u64>, votes: Map<u64, bool>) -> Set<u64> {
    voters.filter(|id: u64| !votes.contains_key(id))
}

/// The outcome of an election among `voters`: won with a majority of granted votes, pending while
/// the missing votes could still make one, lost otherwise. Nobody's vote is needed where there is
/// no voter.
pub open spec fn majority_vote(voters: Set<u64>, votes: Map<u64, bool>) -> VoteResult {
    let quorum = majority_of(voters.len());
    let yes = granted(voters, votes).len();
    if voters.is_empty() || yes >= quorum {
        VoteResult::Won
    } else if yes + missing(voters, votes).len() >= quorum {
        VoteResult::Pending
    } else {
        VoteResult::Lost
    }
}

/// How many more granted votes make a majority of `voters`.
pub open spec fn votes_needed(voters: Set<u64>, votes: Map<u64, bool>) -> nat {
    let quorum = majority_of(voters.len());
    let yes = granted(voters, votes).len();
    if voters.is_empty() || yes >= quorum {
        0
    } else {
        (quorum - yes) as nat
    }
}

/// A joint configuration in the abstract: both halves must agree.
#[verifier::ext_equal]
pub struct JointView {
    /// The voters of the configuration that is being entered, or of the only one.
    pub incoming: Set<u64>,
    /// The voters of the configuration that is being left, empty when there is none.
    pub outgoing: Set<u64>,
}

impl JointView {
    /// The voters of either half.
    pub open spec fn ids(self) -> Set<u64> {
        self.incoming.union(self.outgoing)
    }

    /// The committed index is what both halves have committed; commit groups decided it where
    /// they did in both.
    pub open spec fn committed(self, acks: Map<u64, Index>, group_commit: bool) -> (u64, bool) {
        let i = majority_committed(self.incoming, acks, group_commit);
        let o = majority_committed(self.outgoing, acks, group_commit);
        (
            if i.0 <= o.0 {
                i.0
            } else {
                o.0
            },
            i.1 && o.1,
        )
    }

    /// An election is won in both halves or lost in one.
    pub open spec fn vote(self, votes: Map<u64, bool>) -> VoteResult {
        let i = majority_vote(self.incoming, votes);
        let o = majority_vote(self.outgoing, votes);
        if i is Won && o is Won {
            VoteResult::Won
        } else if i is Lost || o is Lost {
            VoteResult::Lost
        } else {
            VoteResult::Pending
        }
    }

    /// The nodes in `active` are a majority of each half that has voters.
    pub open spec fn has_quorum(self, active: Set<u64>) -> bool {
        &&& is_majority(self.incoming, active)
        &&& is_majority(self.outgoing, active)
    }
}

/// The nodes in `active` are a majority of `voters`, or there is no voter.
pub open spec fn is_majority(voters: Set<u64>, active: Set<u64>) -> bool {
    voters.is_empty() || voters.intersect(active).len() >= majority_of(voters.len())
}

/// Adding an element outside a finite set adds one to what a predicate selects, or nothing.
pub proof fn lemma_filter_insert(s: Set<u64>, x: u64, p: spec_fn(u64) -> bool)
    requires
        s.finite(),
        !s.contains(x),
    ensures
        s.filter(p).finite(),
        s.insert(x).filter(p).len() == s.filter(p).len() + if p(x) {
            1nat
        } else {
            0nat
        },
{
    s.lemma_len_filter(p);
    if p(x) {
        assert(s.insert(x).filter(p) =~= s.filter(p).insert(x));
    } else {
        assert(s.insert(x).filter(p) =~= s.filter(p));
    }
}

/// A finite set of voters has one whose acknowledged index is least.
proof fn lemma_least_ack(s: Set<u64>, acks: Map<u64, Index>) -> (m: u64)
    requires
        s.finite(),
        !s.is_empty(),
    ensures
        s.contains(m),
        forall|x: u64| #[trigger]
            s.contains(x) ==> ack_of(acks, m).index <= ack_of(acks, x).index,
    decreases s.len(),
{
    let a = s.choose();
    let rest = s.remove(a);
    if rest.is_empty() {
        assert forall|x: u64| #[trigger] s.contains(x) implies x == a by {
            if x != a {
                assert(rest.contains(x));
            }
        }
        a
    } else {
        let b = lemma_least_ack(rest, acks);
        let m = if ack_of(acks, a).index <= ack_of(acks, b).index {
            a
        } else {
            b
        };
        assert forall|x: u64| #[trigger] s.contains(x) implies ack_of(acks, m).index <= ack_of(
            acks,
            x,
        ).index by {
            if x != a {
                assert(rest.contains(x));
            }
        }
        m
    }
}

/// Where some index above `best` is supported, so is one that a voter has acknowledged exactly.
pub proof fn lemma_supported_at_ack(
    voters: Set<u64>,
    acks: Map<u64, Index>,
    k: nat,
    spread: bool,
    index: u64,
) -> (m: u64)
    requires
        voters.finite(),
        k >= 1,
        supported(voters, acks, k, spread, index),
    ensures
        voters.contains(m),
        ack_of(acks, m).index >= index,
        supported(voters, acks, k, spread, ack_of(acks, m).index),
{
    let backers = at_least(voters, acks, index);
    voters.lemma_len_filter(|id: u64| ack_of(acks, id).index >= index);
    let m = lemma_least_ack(backers, acks);
    assert(at_least(voters, acks, ack_of(acks, m).index) =~= backers);
    m
}

/// There is at most one greatest supported index.
pub proof fn lemma_greatest_supported_unique(
    voters: Set<u64>,
    acks: Map<u64, Index>,
    k: nat,
    spread: bool,
    index: u64,
)
    requires
        is_greatest_supported(voters, acks, k, spread, index),
    ensures
        greatest_supported(voters, acks, k, spread) == index,
{
    let other = greatest_supported(voters, acks, k, spread);
    assert(is_greatest_supported(voters, acks, k, spread, other));
    assert(supported(voters, acks, k, spread, other));
    assert(supported(voters, acks, k, spread, index));
}

/// From a supported index on, there is a greatest one.
pub proof fn lemma_greatest_from(
    voters: Set<u64>,
    acks: Map<u64, Index>,
    k: nat,
    spread: bool,
    index: u64,
)
    requires
        supported(voters, acks, k, spread, index),
    ensures
        is_greatest_supported(
            voters,
            acks,
            k,
            spread,
            greatest_supported(voters, acks, k, spread),
        ),
        greatest_supported(voters, acks, k, spread) >= index,
    decreases u64::MAX - index,
{
    if is_greatest_supported(voters, acks, k, spread, index) {
        lemma_greatest_supported_unique(voters, acks, k, spread, index);
    } else {
        let i = choose|i: u64| i > index && #[trigger] supported(voters, acks, k, spread, i);
        lemma_greatest_from(voters, acks, k, spread, i);
    }
}

/// Index 0 is supported by all voters.
pub proof fn lemma_all_support_zero(voters: Set<u64>, acks: Map<u64, Index>, k: nat, spread: bool)
    requires
        k <= voters.len(),
        spread ==> spans_groups(voters, acks),
    ensures
        supported(voters, acks, k, spread, 0),
{
    assert(at_least(voters, acks, 0) =~= voters);
}

}
