//! What the leader tracks: the membership of the cluster, the progress of each node, the votes of
//! an election, and whom it replicates to.
use std::collections::hash_map::Entry;
use std::collections::{HashMap, HashSet};

use vstd::prelude::*;

use crate::confchange::{MapChange, MapChangeType};
use crate::quorum;
use crate::quorum::{AckedIndexer, Index, VoteResult};
use crate::sets;

pub mod calls;
pub mod configuration;
pub mod effects;
pub mod epoch;
pub mod laws;
pub mod progress;
pub mod render;
pub mod text;

pub use configuration::{Configuration, ConfigurationView};
pub use epoch::{Epoch, EpochView, ReplicationSet, ReplicationSetView};
pub use progress::{Inflights, Progress, ProgressState};

verus! {

/// The progress of each tracked node.
pub type ProgressMap = HashMap<u64, Progress>;

/// What the tracked nodes have acknowledged.
pub open spec fn acks_of(progress: Map<u64, Progress>) -> Map<u64, Index> {
    progress.map_values(
        |p: Progress| Index { index: p.matched, group_id: p.commit_group_id },
    )
}

impl AckedIndexer for HashMap<u64, Progress> {
    open spec fn acks(&self) -> Map<u64, Index> {
        acks_of(self@)
    }

    fn acked_index(&self, voter_id: u64) -> (r: Option<Index>) {
        match self.get(&voter_id) {
            Some(p) => Some(Index { index: p.matched, group_id: p.commit_group_id }),
            None => None,
        }
    }
}

/// The acknowledgements of the nodes in a scope, such as a replication set, and of no others.
pub struct ScopedAckIndexer<'a> {
    /// The progress of all nodes.
    pub indexer: &'a ProgressMap,
    /// The nodes that count.
    pub scope: &'a HashSet<u64>,
}

impl<'a> AckedIndexer for ScopedAckIndexer<'a> {
    open spec fn acks(&self) -> Map<u64, Index> {
        acks_of(self.indexer@).restrict(self.scope@)
    }

    fn acked_index(&self, voter_id: u64) -> (r: Option<Index>) {
        if !self.scope.contains(&voter_id) {
            return None;
        }
        self.indexer.acked_index(voter_id)
    }
}

/// The leader's view of the cluster.
pub struct ProgressTracker {
    /// The progress of each node.
    pub progress: ProgressMap,
    /// The current membership.
    pub conf: Configuration,
    /// The votes of the current election.
    pub votes: HashMap<u64, bool>,
    /// The size of the window of appends of each node that is added.
    pub max_inflight: usize,
    /// Whether an entry must reach two commit groups to be committed.
    pub group_commit: bool,
    /// The subterm and the replication sets, of use only where there are witnesses.
    pub epoch: Epoch,
}

/// A tracker in the abstract.
#[verifier::ext_equal]
pub struct TrackerView {
    pub progress: Map<u64, Progress>,
    pub conf: ConfigurationView,
    pub votes: Map<u64, bool>,
    pub max_inflight: usize,
    pub group_commit: bool,
    pub epoch: EpochView,
}

impl View for ProgressTracker {
    type V = TrackerView;

    open spec fn view(&self) -> TrackerView {
        TrackerView {
            progress: self.progress@,
            conf: self.conf@,
            votes: self.votes@,
            max_inflight: self.max_inflight,
            group_commit: self.group_commit,
            epoch: self.epoch@,
        }
    }
}

/// A node that has just been added. It counts as active, so that the leader does not step down
/// before the node had a chance to be heard of.
pub open spec fn added(
    id: u64,
    witnesses: Seq<u64>,
    next_idx: u64,
    max_inflight: usize,
) -> Progress {
    Progress {
        recent_active: true,
        is_witness: witnesses[0] == id || witnesses[1] == id,
        ..Progress::unheard(next_idx, max_inflight)
    }
}

/// The tracked nodes after a sequence of changes.
pub open spec fn changed(
    progress: Map<u64, Progress>,
    changes: Seq<(u64, MapChangeType)>,
    witnesses: Seq<u64>,
    next_idx: u64,
    max_inflight: usize,
) -> Map<u64, Progress>
    decreases changes.len(),
{
    if changes.len() == 0 {
        progress
    } else {
        let before = changed(progress, changes.drop_last(), witnesses, next_idx, max_inflight);
        let id = changes.last().0;
        match changes.last().1 {
            MapChangeType::Add => before.insert(id, added(id, witnesses, next_idx, max_inflight)),
            MapChangeType::Remove => before.remove(id),
        }
    }
}

/// A tracked node counts as active from the perspective of another: it is that node itself, a
/// witness (whose liveness does not depend on heartbeats), or was heard of recently.
pub open spec fn counts_as_active(
    progress: Map<u64, Progress>,
    perspective_of: u64,
    id: u64,
) -> bool {
    progress.contains_key(id) && (id == perspective_of || progress[id].is_witness
        || progress[id].recent_active)
}

/// The tracked nodes that count as active.
pub open spec fn active_nodes(progress: Map<u64, Progress>, perspective_of: u64) -> Set<u64> {
    Set::new(|id: u64| counts_as_active(progress, perspective_of, id))
}

/// A node after a check of who is active: all but the witnesses and the checking node must be
/// heard of anew.
pub open spec fn polled(id: u64, p: Progress, perspective_of: u64) -> Progress {
    Progress { recent_active: id == perspective_of || p.is_witness, ..p }
}

/// All tracked nodes after such a check.
pub open spec fn all_polled(
    progress: Map<u64, Progress>,
    perspective_of: u64,
) -> Map<u64, Progress> {
    Map::new(
        |id: u64| progress.contains_key(id),
        |id: u64| polled(id, progress[id], perspective_of),
    )
}

impl TrackerView {
    /// Nothing known of any node.
    pub open spec fn fresh(max_inflight: usize) -> TrackerView {
        TrackerView {
            progress: Map::empty(),
            conf: ConfigurationView::simple(Set::empty(), Set::empty()),
            votes: Map::empty(),
            max_inflight,
            group_commit: false,
            epoch: EpochView::empty(),
        }
    }

    /// The epoch that an election (`reset_subterm`) or a membership change starts.
    pub open spec fn reset_epoch(self, reset_subterm: bool) -> EpochView {
        EpochView::started(
            if reset_subterm {
                0
            } else {
                (self.epoch.subterm + 1) as u64
            },
            ReplicationSetView::initial(self.conf.voters.incoming, self.conf.witnesses[0]),
            ReplicationSetView::initial(self.conf.voters.outgoing, self.conf.witnesses[1]),
        )
    }

    /// The index, for each witness that is to receive shortcut replication, that lacks at most one
    /// acknowledgement from its replication set for a majority of its half.
    pub open spec fn shortcut_indexes(self) -> Map<u64, u64> {
        let epoch = self.epoch;
        let none = Map::<u64, u64>::empty();
        let incoming = if epoch.incoming.needs_witness() {
            none.insert(
                epoch.incoming.witness,
                quorum::majority_one_less(
                    self.conf.voters.incoming,
                    acks_of(self.progress).restrict(epoch.incoming.non_witness_voters),
                ),
            )
        } else {
            none
        };
        if epoch.outgoing.needs_witness() {
            incoming.insert(
                epoch.outgoing.witness,
                quorum::majority_one_less(
                    self.conf.voters.outgoing,
                    acks_of(self.progress).restrict(epoch.outgoing.non_witness_voters),
                ),
            )
        } else {
            incoming
        }
    }
}

/// A mutable reference to the progress of a node.
fn entry_mut(progress: &mut ProgressMap, id: u64) -> (r: Option<&mut Progress>)
    ensures
        match r {
            Some(p) => {
                &&& old(progress)@.contains_key(id)
                &&& *p == old(progress)@[id]
                &&& final(progress)@ == old(progress)@.insert(id, *final(p))
            },
            None => !old(progress)@.contains_key(id) && final(progress)@ == old(progress)@,
        },
{
    match progress.entry(id) {
        Entry::Occupied(e) => Some(e.into_mut()),
        Entry::Vacant(_) => None,
    }
}

/// Mutable references to the progress of all nodes, from `HashMap::iter_mut`. It visits every entry
/// of the map once, in any order, and hands out references to the key and to the value in the map;
/// it adds and removes none.
#[verifier::external_body]
fn entries_mut(progress: &mut ProgressMap) -> (all: Vec<(&u64, &mut Progress)>)
    ensures
        all@.len() == old(progress)@.dom().len(),
        forall|i: int, j: int|
            0 <= i < j < all@.len() ==> *(#[trigger] all@[i]).0 != *(#[trigger] all@[j]).0,
        forall|id: u64| #[trigger]
            old(progress)@.contains_key(id) ==> exists|i: int|
                0 <= i < all@.len() && *(#[trigger] all@[i]).0 == id,
        forall|i: int|
            0 <= i < all@.len() ==> {
                &&& old(progress)@.contains_key(*(#[trigger] all@[i]).0)
                &&& *all@[i].1 == old(progress)@[*all@[i].0]
            },
        forall|i: int|
            0 <= i < all@.len() ==> final(progress)@[*(#[trigger] all@[i]).0] == *final(all@[i].1),
        final(progress)@.dom() == old(progress)@.dom(),
{
    progress.iter_mut().collect()
}

impl Clone for ProgressTracker {
    fn clone(&self) -> (t: Self)
        ensures
            t@ == self@,
    {
        let t = ProgressTracker {
            progress: self.progress.clone(),
            conf: self.conf.clone(),
            votes: self.votes.clone(),
            max_inflight: self.max_inflight,
            group_commit: self.group_commit,
            epoch: self.epoch.clone(),
        };
        assert(t@ =~= self@);
        t
    }
}

/// The identifiers of the tracked nodes, in no particular order.
fn known_ids(progress: &ProgressMap) -> (ids: Vec<u64>)
    ensures
        sets::enumerates(ids@, progress@.dom()),
{
    let ghost refs = vstd::std_specs::iter::IteratorSpec::remaining(
        &vstd::std_specs::hash::spec_keys_iter(progress),
    );
    let mut ids: Vec<u64> = Vec::new();
    for id in it: progress.keys()
        invariant
            it.seq() == refs,
            ids@ == refs.unref().take(it.index()),
    {
        ids.push(*id);
    }
    proof {
        broadcast use vstd::std_specs::hash::group_hash_axioms;

        assert(ids@ == refs.unref());
        assert(refs.no_duplicates());
        assert forall|i: int, j: int|
            0 <= i < ids@.len() && 0 <= j < ids@.len() && i != j implies ids@[i] != ids@[j] by {
            assert(refs[i] != refs[j]);
        }
    }
    ids
}

/// How many of the listed nodes have cast the given vote.
fn count_votes(ids: &Vec<u64>, votes: &HashMap<u64, bool>, vote: bool) -> (n: usize)
    requires
        ids@.no_duplicates(),
    ensures
        n == ids@.to_set().filter(|id: u64| votes@.contains_key(id) && votes@[id] == vote).len(),
        n <= ids@.len(),
{
    let ghost m = votes@;
    let ghost p = |id: u64| m.contains_key(id) && m[id] == vote;
    let mut n: usize = 0;
    let mut i: usize = 0;
    assert(ids@.take(0).to_set().filter(p) =~= Set::empty());
    while i < ids.len()
        invariant
            ids@.no_duplicates(),
            m == votes@,
            p == (|id: u64| m.contains_key(id) && m[id] == vote),
            n <= i <= ids@.len(),
            n == ids@.take(i as int).to_set().filter(p).len(),
        decreases ids@.len() - i,
    {
        proof {
            sets::lemma_take_next(ids@, i as int);
            quorum::lemma_filter_insert(ids@.take(i as int).to_set(), ids@[i as int], p);
        }
        if let Some(v) = votes.get(&ids[i]) {
            if *v == vote {
                n = n + 1;
            }
        }
        i = i + 1;
    }
    assert(ids@.take(i as int) == ids@);
    n
}

/// A vote in favour from each of the listed nodes.
fn votes_of(active: &HashSet<u64>) -> (votes: HashMap<u64, bool>)
    ensures
        votes@.dom() == active@,
        forall|id: u64| #[trigger] votes@.contains_key(id) ==> votes@[id],
{
    let ids = sets::to_vec(active);
    let mut votes: HashMap<u64, bool> = HashMap::new();
    let mut i: usize = 0;
    assert(votes@.dom() =~= ids@.take(0).to_set());
    while i < ids.len()
        invariant
            ids@.no_duplicates(),
            i <= ids@.len(),
            votes@.dom() == ids@.take(i as int).to_set(),
            forall|id: u64| #[trigger] votes@.contains_key(id) ==> votes@[id],
        decreases ids@.len() - i,
    {
        proof {
            sets::lemma_take_next(ids@, i as int);
        }
        votes.insert(ids[i], true);
        i = i + 1;
    }
    assert(ids@.take(i as int) == ids@);
    votes
}

/// An election in which the nodes in `active`, and no others, have voted, all in favour, is won
/// where they are a quorum.
proof fn lemma_quorum_is_election(voters: Set<u64>, active: Set<u64>, votes: Map<u64, bool>)
    requires
        votes.dom() == active,
        forall|id: u64| #[trigger] votes.contains_key(id) ==> votes[id],
    ensures
        quorum::is_majority(voters, active) == (quorum::majority_vote(voters, votes) is Won),
{
    assert(quorum::granted(voters, votes) =~= voters.intersect(active));
}

impl ProgressTracker {
    /// A tracker of no node, with windows of `max_inflight` appends for those to come.
    pub fn new(max_inflight: usize) -> (t: Self)
        ensures
            t@ == TrackerView::fresh(max_inflight),
    {
        Self::with_capacity(0, 0, max_inflight)
    }

    /// A tracker of no node, with room for the given numbers of voters and learners.
    pub fn with_capacity(voters: usize, learners: usize, max_inflight: usize) -> (t: Self)
        requires
            voters + learners <= usize::MAX,
        ensures
            t@ == TrackerView::fresh(max_inflight),
    {
        ProgressTracker {
            progress: HashMap::with_capacity(voters + learners),
            conf: Configuration::with_capacity(voters, learners),
            votes: HashMap::with_capacity(voters),
            max_inflight,
            group_commit: false,
            epoch: Epoch::default(),
        }
    }

    /// Grabs a reference to the progress of a node.
    pub fn get(&self, id: u64) -> (r: Option<&Progress>)
        ensures
            match r {
                Some(p) => self@.progress.contains_key(id) && *p == self@.progress[id],
                None => !self@.progress.contains_key(id),
            },
    {
        self.progress.get(&id)
    }

    /// Grabs a mutable reference to the progress of a node.
    pub fn get_mut(&mut self, id: u64) -> (r: Option<&mut Progress>)
        ensures
            match r {
                Some(p) => {
                    &&& old(self)@.progress.contains_key(id)
                    &&& *p == old(self)@.progress[id]
                    &&& final(self)@ == (TrackerView {
                        progress: old(self)@.progress.insert(id, *final(p)),
                        ..old(self)@
                    })
                },
                None => !old(self)@.progress.contains_key(id) && final(self)@ == old(self)@,
            },
    {
        entry_mut(&mut self.progress, id)
    }

    /// All nodes with their progress, in no particular order. Not for counting a majority: see
    /// `has_quorum`.
    pub fn iter(&self) -> (it: std::collections::hash_map::Iter<'_, u64, Progress>)
        ensures
            vstd::std_specs::iter::IteratorSpec::remaining(&it).no_duplicates(),
            vstd::std_specs::iter::IteratorSpec::remaining(&it).unref().to_set()
                == self@.progress.kv_pairs(),
    {
        self.progress.iter()
    }

    /// All nodes with mutable references to their progress, in no particular order. Not for
    /// counting a majority: see `has_quorum`.
    pub fn iter_mut(&mut self) -> (all: Vec<(&u64, &mut Progress)>)
        ensures
            all@.len() == old(self)@.progress.dom().len(),
            forall|i: int, j: int|
                0 <= i < j < all@.len() ==> *(#[trigger] all@[i]).0 != *(#[trigger] all@[j]).0,
            forall|id: u64| #[trigger]
                old(self)@.progress.contains_key(id) ==> exists|i: int|
                    0 <= i < all@.len() && *(#[trigger] all@[i]).0 == id,
            forall|i: int|
                0 <= i < all@.len() ==> {
                    &&& old(self)@.progress.contains_key(*(#[trigger] all@[i]).0)
                    &&& *all@[i].1 == old(self)@.progress[*all@[i].0]
                },
            forall|i: int|
                0 <= i < all@.len() ==> final(self)@.progress[*(#[trigger] all@[i]).0] == *final(
                    all@[i].1),
            final(self)@.progress.dom() == old(self)@.progress.dom(),
            final(self)@ == (TrackerView { progress: final(self)@.progress, ..old(self)@ }),
    {
        entries_mut(&mut self.progress)
    }

    /// Configures group commit.
    pub fn enable_group_commit(&mut self, enable: bool)
        ensures
            final(self)@ == (TrackerView { group_commit: enable, ..old(self)@ }),
    {
        self.group_commit = enable;
    }

    /// Whether group commit is on.
    pub fn group_commit(&self) -> (b: bool)
        ensures
            b == self@.group_commit,
    {
        self.group_commit
    }

    /// Forgets the membership, the nodes and the votes.
    pub fn clear(&mut self)
        ensures
            final(self)@ == (TrackerView {
                progress: Map::empty(),
                conf: ConfigurationView::simple(Set::empty(), Set::empty()),
                votes: Map::empty(),
                ..old(self)@
            }),
    {
        self.progress.clear();
        self.conf.clear();
        self.votes.clear();
    }

    /// Whether there is only one voting member, the leader.
    pub fn is_singleton(&self) -> (b: bool)
        ensures
            b == (self@.conf.voters.outgoing.is_empty() && self@.conf.voters.incoming.len() == 1),
    {
        self.conf.voters.is_singleton()
    }

    /// The current membership.
    pub fn conf(&self) -> (c: &Configuration)
        ensures
            c@ == self@.conf,
    {
        &self.conf
    }

    /// The votes recorded so far.
    pub fn votes(&self) -> (v: &HashMap<u64, bool>)
        ensures
            v@ == self@.votes,
    {
        &self.votes
    }

    /// The size of the window of appends of each node.
    pub fn max_inflight(&self) -> (n: &usize)
        ensures
            *n == self@.max_inflight,
    {
        &self.max_inflight
    }

    /// The progress of all nodes.
    pub fn progress(&self) -> (p: &ProgressMap)
        ensures
            p@ == self@.progress,
    {
        &self.progress
    }

    /// The greatest index that is committed, and whether commit groups decided it. With the
    /// matched indexes `[2, 2, 2, 4, 5]` it is 2; with the matched indexes and groups `[(1, 1),
    /// (2, 2), (3, 2)]` and group commit it is 1.
    pub fn maximal_committed_index(&mut self) -> (r: (u64, bool))
        ensures
            r == old(self)@.conf.voters.committed(
                acks_of(old(self)@.progress),
                old(self)@.group_commit,
            ),
            *final(self) == *old(self),
    {
        self.conf.voters.committed_index(self.group_commit, &self.progress)
    }

    /// Prepares for a new round of votes.
    pub fn reset_votes(&mut self)
        ensures
            final(self)@ == (TrackerView { votes: Map::empty(), ..old(self)@ }),
    {
        self.votes.clear();
    }

    /// Records the vote of a node. Its first vote stays.
    pub fn record_vote(&mut self, id: u64, vote: bool)
        ensures
            final(self)@ == (TrackerView {
                votes: if old(self)@.votes.contains_key(id) {
                    old(self)@.votes
                } else {
                    old(self)@.votes.insert(id, vote)
                },
                ..old(self)@
            }),
    {
        self.votes.entry(id).or_insert(vote);
        assert(old(self).votes@.contains_key(id) ==> self.votes@ =~= old(self).votes@);
    }

    /// The numbers of voters that granted and that declined their vote, and the outcome of the
    /// election. Votes of nodes that are no voters (any more) do not count.
    pub fn tally_votes(&self) -> (r: (usize, usize, VoteResult))
        ensures
            r.0 == quorum::granted(self@.conf.voters.ids(), self@.votes).len(),
            r.1 == quorum::rejected(self@.conf.voters.ids(), self@.votes).len(),
            r.2 == self@.conf.voters.vote(self@.votes),
    {
        let (granted, rejected) = self.count_cast();
        (granted, rejected, self.vote_result(&self.votes))
    }

    /// The numbers of voters that granted and that declined their vote.
    fn count_cast(&self) -> (r: (usize, usize))
        ensures
            r.0 == quorum::granted(self@.conf.voters.ids(), self@.votes).len(),
            r.1 == quorum::rejected(self@.conf.voters.ids(), self@.votes).len(),
    {
        let ids = sets::to_vec(&self.conf.voters.ids());
        let granted = count_votes(&ids, &self.votes, true);
        let rejected = count_votes(&ids, &self.votes, false);
        proof {
            let all = self@.conf.voters.ids();
            let m = self@.votes;
            assert(all.filter(|id: u64| m.contains_key(id) && m[id] == true) =~= quorum::granted(
                all,
                m,
            ));
            assert(all.filter(|id: u64| m.contains_key(id) && m[id] == false) =~= quorum::rejected(
                all,
                m,
            ));
        }
        (granted, rejected)
    }

    /// The outcome of the election that `votes` record.
    pub fn vote_result(&self, votes: &HashMap<u64, bool>) -> (r: VoteResult)
        ensures
            r == self@.conf.voters.vote(votes@),
    {
        self.conf.voters.vote_result(votes)
    }

    /// Whether the given nodes form a quorum. This is the only correct way to tell for the whole
    /// group: during a membership change there are two quorums to reach.
    pub fn has_quorum(&self, potential_quorum: &HashSet<u64>) -> (b: bool)
        ensures
            b == self@.conf.voters.has_quorum(potential_quorum@),
    {
        let votes = votes_of(potential_quorum);
        proof {
            lemma_quorum_is_election(self@.conf.voters.incoming, potential_quorum@, votes@);
            lemma_quorum_is_election(self@.conf.voters.outgoing, potential_quorum@, votes@);
        }
        self.conf.voters.vote_result(&votes) == VoteResult::Won
    }

    /// Whether the nodes that are active, from the perspective of the leader, form a quorum. Every
    /// node but the leader and the witnesses must then be heard of anew.
    pub fn quorum_recently_active(&mut self, perspective_of: u64) -> (b: bool)
        ensures
            b == old(self)@.conf.voters.has_quorum(
                active_nodes(old(self)@.progress, perspective_of),
            ),
            final(self)@ == (TrackerView {
                progress: all_polled(old(self)@.progress, perspective_of),
                ..old(self)@
            }),
    {
        let ids = known_ids(&self.progress);
        let mut active: HashSet<u64> = HashSet::new();
        let ghost before = self.progress@;
        let mut i: usize = 0;
        while i < ids.len()
            invariant
                sets::enumerates(ids@, before.dom()),
                i <= ids@.len(),
                self.progress@.dom() == before.dom(),
                forall|j: int|
                    0 <= j < i ==> self.progress@[#[trigger] ids@[j]] == polled(
                        ids@[j],
                        before[ids@[j]],
                        perspective_of,
                    ),
                forall|j: int|
                    i <= j < ids@.len() ==> self.progress@[#[trigger] ids@[j]] == before[ids@[j]],
                forall|id: u64| #[trigger]
                    active@.contains(id) <==> ids@.take(i as int).to_set().contains(id)
                        && counts_as_active(before, perspective_of, id),
                self.conf == old(self).conf,
                self.votes == old(self).votes,
                self.max_inflight == old(self).max_inflight,
                self.group_commit == old(self).group_commit,
                self.epoch == old(self).epoch,
            decreases ids@.len() - i,
        {
            let id = ids[i];
            proof {
                assert(ids@.contains(id));
                sets::lemma_take_next(ids@, i as int);
            }
            if let Some(pr) = entry_mut(&mut self.progress, id) {
                if id == perspective_of || pr.is_witness {
                    pr.recent_active = true;
                    active.insert(id);
                } else if pr.recent_active {
                    active.insert(id);
                    pr.recent_active = false;
                }
            }
            i = i + 1;
        }
        proof {
            assert(ids@.take(i as int) == ids@);
            assert forall|id: u64| before.contains_key(id) implies self.progress@[id] == polled(
                id,
                before[id],
                perspective_of,
            ) by {
                assert(ids@.to_set().contains(id));
                let j = choose|j: int| 0 <= j < ids@.len() && ids@[j] == id;
                assert(ids@[j] == id);
            }
            assert forall|id: u64| #[trigger] active@.contains(id) <==> counts_as_active(
                before,
                perspective_of,
                id,
            ) by {
                if counts_as_active(before, perspective_of, id) {
                    assert(ids@.to_set().contains(id));
                }
            }
            assert(self.progress@ =~= all_polled(before, perspective_of));
            assert(active@ =~= active_nodes(before, perspective_of));
        }
        self.has_quorum(&active)
    }

    /// Takes over a membership and changes the tracked nodes accordingly.
    pub fn apply_conf(&mut self, conf: Configuration, changes: MapChange, next_idx: u64)
        ensures
            final(self)@ == (TrackerView {
                conf: conf@,
                progress: changed(
                    old(self)@.progress,
                    changes@,
                    conf@.witnesses,
                    next_idx,
                    old(self)@.max_inflight,
                ),
                ..old(self)@
            }),
    {
        let ghost before = self.progress@;
        self.conf = conf;
        let mut i: usize = 0;
        while i < changes.len()
            invariant
                i <= changes@.len(),
                self.conf == conf,
                self.progress@ == changed(
                    before,
                    changes@.take(i as int),
                    conf@.witnesses,
                    next_idx,
                    self.max_inflight,
                ),
                self.votes == old(self).votes,
                self.max_inflight == old(self).max_inflight,
                self.group_commit == old(self).group_commit,
                self.epoch == old(self).epoch,
            decreases changes@.len() - i,
        {
            let (id, change_type) = changes[i];
            assert(changes@.take(i + 1).drop_last() == changes@.take(i as int));
            match change_type {
                MapChangeType::Add => {
                    let mut pr = Progress::new(next_idx, self.max_inflight);
                    pr.recent_active = true;
                    pr.is_witness = self.conf.witnesses[0] == id || self.conf.witnesses[1] == id;
                    self.progress.insert(id, pr);
                },
                MapChangeType::Remove => {
                    self.progress.remove(&id);
                },
            }
            i = i + 1;
        }
        assert(changes@.take(i as int) == changes@);
    }

    /// Starts over with the replication sets of the current membership, on an election with
    /// subterm 0, on a membership change with the next subterm.
    pub fn reset_replication_set(&mut self, reset_subterm: bool)
        requires
            reset_subterm || old(self)@.epoch.subterm < u64::MAX,
        ensures
            final(self)@ == (TrackerView {
                epoch: old(self)@.reset_epoch(reset_subterm),
                ..old(self)@
            }),
    {
        let subterm: u64 = if reset_subterm {
            0
        } else {
            self.epoch.subterm + 1
        };
        self.epoch = Epoch::started(
            subterm,
            ReplicationSet::initial(&self.conf.voters.incoming.voters, self.conf.witnesses[0]),
            ReplicationSet::initial(&self.conf.voters.outgoing.voters, self.conf.witnesses[1]),
        );
    }

    /// Adjusts the replication sets to the liveness of nodes. A voter that was left out and is
    /// back takes the place of an inactive node, or that of the witness; failing that, a witness
    /// outside the set takes the place of an inactive voter. Returns whether a set changed: the
    /// caller is then in the next subterm, and should append an empty entry.
    ///
    /// No node is known to be the leader here: one that leads and is not marked active may be left
    /// out like any other. Use `change_replication_set_led_by` where that must not happen.
    pub fn change_replication_set(&mut self) -> (changed: bool)
        requires
            old(self)@.epoch.subterm < u64::MAX,
        ensures
            old(self)@.epoch.adjusts_to(
                old(self)@.progress,
                None,
                changed,
                final(self)@.epoch,
            ),
            final(self)@ == (TrackerView { epoch: final(self)@.epoch, ..old(self)@ }),
    {
        self.adjust_replication_set(None)
    }

    /// Adjusts the replication sets in the same way, but never leaves `leader` out, though nobody
    /// else is heard of and it has not marked itself active.
    pub fn change_replication_set_led_by(&mut self, leader: u64) -> (changed: bool)
        requires
            old(self)@.epoch.subterm < u64::MAX,
        ensures
            old(self)@.epoch.adjusts_to(
                old(self)@.progress,
                Some(leader),
                changed,
                final(self)@.epoch,
            ),
            final(self)@ == (TrackerView { epoch: final(self)@.epoch, ..old(self)@ }),
    {
        self.adjust_replication_set(Some(leader))
    }

    /// Adjusts the replication sets of both halves; a half that needs no adjustment is kept.
    fn adjust_replication_set(&mut self, leader: Option<u64>) -> (changed: bool)
        requires
            old(self)@.epoch.subterm < u64::MAX,
        ensures
            old(self)@.epoch.adjusts_to(
                old(self)@.progress,
                leader,
                changed,
                final(self)@.epoch,
            ),
            final(self)@ == (TrackerView { epoch: final(self)@.epoch, ..old(self)@ }),
    {
        let incoming = self.epoch.replication_sets[0].adjust(&self.progress, leader);
        let outgoing = self.epoch.replication_sets[1].adjust(&self.progress, leader);
        let changed = incoming.is_some() || outgoing.is_some();
        let ghost incoming_to = epoch::viewed(incoming);
        let ghost outgoing_to = epoch::viewed(outgoing);
        assert(self@.epoch.incoming.adjusts_to(self@.progress, leader, incoming_to));
        assert(self@.epoch.outgoing.adjusts_to(self@.progress, leader, outgoing_to));
        if changed {
            let incoming = match incoming {
                Some(set) => set,
                None => self.epoch.replication_sets[0].clone(),
            };
            let outgoing = match outgoing {
                Some(set) => set,
                None => self.epoch.replication_sets[1].clone(),
            };
            self.epoch = Epoch::started(self.epoch.subterm + 1, incoming, outgoing);
        }
        changed
    }

    /// The index, for each witness that is to receive shortcut replication, that lacks at most one
    /// acknowledgement from its replication set for a majority of its half.
    pub fn one_less_than_quorum_in_replication_set(&self) -> (r: HashMap<u64, u64>)
        ensures
            r@ == self@.shortcut_indexes(),
    {
        let (w0, w1) = self.epoch.replicate_to_witness();
        let mut result: HashMap<u64, u64> = HashMap::new();
        if w0 {
            let set = &self.epoch.replication_sets[0];
            let scoped = ScopedAckIndexer {
                indexer: &self.progress,
                scope: &set.non_witness_voters,
            };
            let index = self.conf.voters.incoming.one_less_than_quorum(&scoped);
            result.insert(set.witness, index);
        }
        if w1 {
            let set = &self.epoch.replication_sets[1];
            let scoped = ScopedAckIndexer {
                indexer: &self.progress,
                scope: &set.non_witness_voters,
            };
            let index = self.conf.voters.outgoing.one_less_than_quorum(&scoped);
            result.insert(set.witness, index);
        }
        result
    }

    /// What `tally_votes` returns, and how many more votes would win each half: `[incoming,
    /// outgoing]`.
    pub fn tally_votes_with_diff(&self) -> (r: (usize, usize, VoteResult, [usize; 2]))
        ensures
            r.0 == quorum::granted(self@.conf.voters.ids(), self@.votes).len(),
            r.1 == quorum::rejected(self@.conf.voters.ids(), self@.votes).len(),
            r.2 == self@.conf.voters.vote(self@.votes),
            r.3@[0] == quorum::votes_needed(self@.conf.voters.incoming, self@.votes),
            r.3@[1] == quorum::votes_needed(self@.conf.voters.outgoing, self@.votes),
    {
        let (granted, rejected) = self.count_cast();
        let (result, diff) = self.conf.voters.vote_result_with_diff(&self.votes);
        (granted, rejected, result, diff)
    }
}

}
