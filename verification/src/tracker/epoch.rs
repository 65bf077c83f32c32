//! Replication sets: whom the leader replicates to within a subterm.
use std::collections::{HashMap, HashSet};

use vstd::prelude::*;

use crate::sets;
use crate::tracker::progress::{Progress, ProgressState};

verus! {

/// The voters of one half of the configuration that the leader replicates to within a subterm.
/// One node, the witness or a voter that is not active, may be left out.
#[derive(Debug)]
pub struct ReplicationSet {
    /// The witness of this half, 0 for none.
    pub witness: u64,
    /// The node that is left out, 0 for none.
    pub excluded: u64,
    /// The voters that the leader replicates to. The witness is among them only while it stands
    /// in for a voter, or is needed for a quorum.
    pub non_witness_voters: HashSet<u64>,
}

/// The subterm and the replication sets of both halves. Only the leader has a use for it.
#[derive(Debug)]
pub struct Epoch {
    /// A counter that grows within a term.
    pub subterm: u64,
    /// The replication sets of the incoming and the outgoing half.
    pub replication_sets: [ReplicationSet; 2],
    /// The last subterm in which the leader replicated to the witness, per half, 0 for none.
    /// While it is the current one, the leader acknowledges entries on behalf of the witness.
    pub witness_subterm: [u64; 2],
    /// The subterm in which an append to the witness awaits its confirmation, per half, 0 for
    /// none. That it is a subterm keeps a late confirmation from an earlier one from counting.
    pub witness_pending_subterm: [u64; 2],
}

/// A replication set in the abstract.
#[verifier::ext_equal]
pub struct ReplicationSetView {
    pub witness: u64,
    pub excluded: u64,
    pub non_witness_voters: Set<u64>,
}

/// An epoch in the abstract.
#[verifier::ext_equal]
pub struct EpochView {
    pub subterm: u64,
    pub incoming: ReplicationSetView,
    pub outgoing: ReplicationSetView,
    pub witness_subterm: Seq<u64>,
    pub witness_pending_subterm: Seq<u64>,
}

impl View for ReplicationSet {
    type V = ReplicationSetView;

    open spec fn view(&self) -> ReplicationSetView {
        ReplicationSetView {
            witness: self.witness,
            excluded: self.excluded,
            non_witness_voters: self.non_witness_voters@,
        }
    }
}

impl View for Epoch {
    type V = EpochView;

    open spec fn view(&self) -> EpochView {
        EpochView {
            subterm: self.subterm,
            incoming: self.replication_sets@[0]@,
            outgoing: self.replication_sets@[1]@,
            witness_subterm: self.witness_subterm@,
            witness_pending_subterm: self.witness_pending_subterm@,
        }
    }
}

/// The replication set, if any, in the abstract.
pub open spec fn viewed(set: Option<ReplicationSet>) -> Option<ReplicationSetView> {
    match set {
        Some(set) => Some(set@),
        None => None,
    }
}

/// A tracked node other than `leader` that was not heard of recently.
pub open spec fn unreachable(
    progress: Map<u64, Progress>,
    leader: Option<u64>,
    id: u64,
) -> bool {
    progress.contains_key(id) && !progress[id].recent_active && leader != Some(id)
}

impl ReplicationSetView {
    /// Nobody to replicate to.
    pub open spec fn empty() -> ReplicationSetView {
        ReplicationSetView { witness: 0, excluded: 0, non_witness_voters: Set::empty() }
    }

    /// The replication set that a subterm after an election or a membership change starts with:
    /// all voters but the witness. The witness is left out where two others remain; it is needed
    /// for a quorum, and takes part, where they do not.
    pub open spec fn initial(voters: Set<u64>, witness: u64) -> ReplicationSetView {
        let regular = voters.remove(witness);
        if witness == 0 {
            ReplicationSetView { witness: 0, excluded: 0, non_witness_voters: regular }
        } else if regular.len() >= 2 {
            ReplicationSetView { witness, excluded: witness, non_witness_voters: regular }
        } else {
            ReplicationSetView {
                witness,
                excluded: 0,
                non_witness_voters: regular.insert(witness),
            }
        }
    }

    /// The witness is to receive shortcut replication: there is one and it is not left out.
    pub open spec fn needs_witness(self) -> bool {
        self.witness != 0 && self.excluded != self.witness
    }

    /// The node that is left out can come back: it is active and, unless it is the witness, the
    /// leader streams appends to it.
    pub open spec fn recovers(self, progress: Map<u64, Progress>) -> bool {
        &&& self.excluded != 0
        &&& progress.contains_key(self.excluded)
        &&& progress[self.excluded].recent_active
        &&& self.excluded == self.witness || progress[self.excluded].state is Replicate
    }

    /// A member other than `leader` that was not heard of recently.
    pub open spec fn is_lost(
        self,
        progress: Map<u64, Progress>,
        leader: Option<u64>,
        id: u64,
    ) -> bool {
        unreachable(progress, leader, id) && self.non_witness_voters.contains(id)
    }

    /// Such a member, or the witness where the same holds of it.
    pub open spec fn is_inactive(
        self,
        progress: Map<u64, Progress>,
        leader: Option<u64>,
        id: u64,
    ) -> bool {
        unreachable(progress, leader, id) && (self.non_witness_voters.contains(id) || id
            == self.witness)
    }

    /// `lost` is a lost member, `None` only where there is none. Which of several it is stays open.
    pub open spec fn picks_lost(
        self,
        progress: Map<u64, Progress>,
        leader: Option<u64>,
        lost: Option<u64>,
    ) -> bool {
        match lost {
            Some(id) => self.is_lost(progress, leader, id),
            None => forall|id: u64| !#[trigger] self.is_lost(progress, leader, id),
        }
    }

    /// `inactive` is an inactive node, `None` only where there is none. Which of several it is
    /// stays open.
    pub open spec fn picks_inactive(
        self,
        progress: Map<u64, Progress>,
        leader: Option<u64>,
        inactive: Option<u64>,
    ) -> bool {
        match inactive {
            Some(id) => self.is_inactive(progress, leader, id),
            None => forall|id: u64| !#[trigger] self.is_inactive(progress, leader, id),
        }
    }

    /// The set with `out` left out and `back` taken in.
    pub open spec fn swapped(self, out: u64, back: u64) -> ReplicationSetView {
        ReplicationSetView {
            witness: self.witness,
            excluded: out,
            non_witness_voters: self.non_witness_voters.remove(out).insert(back),
        }
    }

    /// The set after an adjustment to the liveness of nodes, `None` where it stays.
    ///
    /// A node that was left out and is back takes the place of `inactive`, the member or witness
    /// that is not active, or, where there is none, that of the witness. Failing that, a witness
    /// outside the set takes the place of `lost`, the member that is not active.
    pub open spec fn adjusted(
        self,
        progress: Map<u64, Progress>,
        inactive: Option<u64>,
        lost: Option<u64>,
    ) -> Option<ReplicationSetView> {
        let inactive_id = match inactive {
            Some(id) => id,
            None => 0,
        };
        if self.recovers(progress) && inactive_id > 0 {
            Some(self.swapped(inactive_id, self.excluded))
        } else if self.recovers(progress) && self.excluded != self.witness {
            Some(self.swapped(self.witness, self.excluded))
        } else if self.witness != 0 && !self.non_witness_voters.contains(self.witness) {
            match lost {
                Some(id) => Some(self.swapped(id, self.witness)),
                None => None,
            }
        } else {
            None
        }
    }

    /// `to` is a result of an adjustment that does not leave `leader` out.
    pub open spec fn adjusts_to(
        self,
        progress: Map<u64, Progress>,
        leader: Option<u64>,
        to: Option<ReplicationSetView>,
    ) -> bool {
        exists|inactive: Option<u64>, lost: Option<u64>|
            {
                &&& self.picks_inactive(progress, leader, inactive)
                &&& self.picks_lost(progress, leader, lost)
                &&& to == #[trigger] self.adjusted(progress, inactive, lost)
            }
    }
}

impl EpochView {
    /// Nobody to replicate to, in subterm 0.
    pub open spec fn empty() -> EpochView {
        EpochView {
            subterm: 0,
            incoming: ReplicationSetView::empty(),
            outgoing: ReplicationSetView::empty(),
            witness_subterm: seq![0, 0],
            witness_pending_subterm: seq![0, 0],
        }
    }

    /// A subterm in which no witness has been contacted yet.
    pub open spec fn started(
        subterm: u64,
        incoming: ReplicationSetView,
        outgoing: ReplicationSetView,
    ) -> EpochView {
        EpochView {
            subterm,
            incoming,
            outgoing,
            witness_subterm: seq![0, 0],
            witness_pending_subterm: seq![0, 0],
        }
    }

    /// `to` is a result of an adjustment to the liveness of nodes that does not leave `leader`
    /// out; `changed` says whether either half changed. Then the next subterm starts, and a half
    /// that did not change is kept as it was.
    pub open spec fn adjusts_to(
        self,
        progress: Map<u64, Progress>,
        leader: Option<u64>,
        changed: bool,
        to: EpochView,
    ) -> bool {
        exists|incoming: Option<ReplicationSetView>, outgoing: Option<ReplicationSetView>|
            {
                &&& #[trigger] self.incoming.adjusts_to(progress, leader, incoming)
                &&& #[trigger] self.outgoing.adjusts_to(progress, leader, outgoing)
                &&& changed == (incoming is Some || outgoing is Some)
                &&& to == if changed {
                    EpochView::started(
                        (self.subterm + 1) as u64,
                        match incoming {
                            Some(set) => set,
                            None => self.incoming,
                        },
                        match outgoing {
                            Some(set) => set,
                            None => self.outgoing,
                        },
                    )
                } else {
                    self
                }
            }
    }
}

impl Default for ReplicationSet {
    fn default() -> (s: Self)
        ensures
            s@ == ReplicationSetView::empty(),
    {
        ReplicationSet { witness: 0, excluded: 0, non_witness_voters: HashSet::new() }
    }
}

impl Clone for ReplicationSet {
    fn clone(&self) -> (s: Self)
        ensures
            s@ == self@,
    {
        ReplicationSet {
            witness: self.witness,
            excluded: self.excluded,
            non_witness_voters: sets::copy(&self.non_witness_voters),
        }
    }
}

impl ReplicationSet {
    /// The replication set that a subterm after an election or a membership change starts with.
    pub(crate) fn initial(voters: &HashSet<u64>, witness: u64) -> (set: Self)
        ensures
            set@ == ReplicationSetView::initial(voters@, witness),
    {
        proof {
            sets::lemma_hash_set_finite(voters);
        }
        let mut regular = sets::copy(voters);
        regular.remove(&witness);
        if witness == 0 {
            ReplicationSet { witness: 0, excluded: 0, non_witness_voters: regular }
        } else if regular.len() >= 2 {
            ReplicationSet { witness, excluded: witness, non_witness_voters: regular }
        } else {
            regular.insert(witness);
            ReplicationSet { witness, excluded: 0, non_witness_voters: regular }
        }
    }

    /// The set with `out` left out and `back` taken in.
    fn swapped(&self, out: u64, back: u64) -> (set: Self)
        ensures
            set@ == self@.swapped(out, back),
    {
        let mut members = sets::copy(&self.non_witness_voters);
        members.remove(&out);
        members.insert(back);
        ReplicationSet { witness: self.witness, excluded: out, non_witness_voters: members }
    }

    /// Finds a member other than `leader` that is tracked and not active.
    fn find_lost(&self, progress: &HashMap<u64, Progress>, leader: Option<u64>) -> (lost: Option<
        u64,
    >)
        ensures
            self@.picks_lost(progress@, leader, lost),
    {
        let ids = sets::to_vec(&self.non_witness_voters);
        let mut i: usize = 0;
        while i < ids.len()
            invariant
                i <= ids@.len(),
                ids@.to_set() == self@.non_witness_voters,
                forall|j: int|
                    0 <= j < i ==> !unreachable(progress@, leader, #[trigger] ids@[j]),
            decreases ids@.len() - i,
        {
            let id = ids[i];
            if is_unreachable(progress, leader, id) {
                assert(ids@.contains(ids@[i as int]));
                return Some(id);
            }
            i = i + 1;
        }
        assert forall|id: u64| !#[trigger] self@.is_lost(progress@, leader, id) by {
            if ids@.contains(id) {
                let j = choose|j: int| 0 <= j < ids@.len() && ids@[j] == id;
                assert(ids@[j] == id);
            }
        }
        None
    }

    /// Adjusts the set to the liveness of nodes, `None` where it stays.
    pub(crate) fn adjust(&self, progress: &HashMap<u64, Progress>, leader: Option<u64>) -> (to:
        Option<Self>)
        ensures
            self@.adjusts_to(progress@, leader, viewed(to)),
    {
        let lost = self.find_lost(progress, leader);
        let inactive = match lost {
            Some(id) => Some(id),
            None => if is_unreachable(progress, leader, self.witness) {
                Some(self.witness)
            } else {
                None
            },
        };
        assert(inactive is None ==> forall|id: u64| #[trigger]
            self@.is_inactive(progress@, leader, id) ==> self@.is_lost(progress@, leader, id));
        self.adjust_with(progress, inactive, lost)
    }

    /// The adjustment, once the nodes that would make room are known.
    fn adjust_with(
        &self,
        progress: &HashMap<u64, Progress>,
        inactive: Option<u64>,
        lost: Option<u64>,
    ) -> (to: Option<Self>)
        ensures
            viewed(to) == self@.adjusted(progress@, inactive, lost),
    {
        let inactive_id: u64 = match inactive {
            Some(id) => id,
            None => 0,
        };
        let recovers = if self.excluded != 0 {
            match progress.get(&self.excluded) {
                Some(pr) => pr.recent_active && (self.excluded == self.witness || pr.state
                    == ProgressState::Replicate),
                None => false,
            }
        } else {
            false
        };
        if recovers && inactive_id > 0 {
            return Some(self.swapped(inactive_id, self.excluded));
        }
        if recovers && self.excluded != self.witness {
            return Some(self.swapped(self.witness, self.excluded));
        }
        if self.witness != 0 && !self.non_witness_voters.contains(&self.witness) {
            if let Some(id) = lost {
                return Some(self.swapped(id, self.witness));
            }
        }
        None
    }
}

/// Whether a node other than `leader` is tracked and not active.
fn is_unreachable(progress: &HashMap<u64, Progress>, leader: Option<u64>, id: u64) -> (b: bool)
    ensures
        b == unreachable(progress@, leader, id),
{
    let is_leader = match leader {
        Some(l) => l == id,
        None => false,
    };
    match progress.get(&id) {
        Some(pr) => !pr.recent_active && !is_leader,
        None => false,
    }
}

impl Default for Epoch {
    fn default() -> (e: Self)
        ensures
            e@ == EpochView::empty(),
    {
        Epoch::started(0, ReplicationSet::default(), ReplicationSet::default())
    }
}

impl Clone for Epoch {
    fn clone(&self) -> (e: Self)
        ensures
            e@ == self@,
    {
        Epoch {
            subterm: self.subterm,
            replication_sets: [self.replication_sets[0].clone(), self.replication_sets[1].clone()],
            witness_subterm: self.witness_subterm,
            witness_pending_subterm: self.witness_pending_subterm,
        }
    }
}

impl Epoch {
    /// A subterm in which no witness has been contacted yet.
    pub(crate) fn started(
        subterm: u64,
        incoming: ReplicationSet,
        outgoing: ReplicationSet,
    ) -> (e: Self)
        ensures
            e@ == EpochView::started(subterm, incoming@, outgoing@),
    {
        Epoch {
            subterm,
            replication_sets: [incoming, outgoing],
            witness_subterm: [0, 0],
            witness_pending_subterm: [0, 0],
        }
    }

    /// Whether either half has a witness.
    pub fn has_witness(&self) -> (b: bool)
        ensures
            b == (self@.incoming.witness != 0 || self@.outgoing.witness != 0),
    {
        self.replication_sets[0].witness != 0 || self.replication_sets[1].witness != 0
    }

    /// Whether the witness is to receive shortcut replication, in the incoming and in the outgoing
    /// half.
    pub fn replicate_to_witness(&self) -> (r: (bool, bool))
        ensures
            r == (self@.incoming.needs_witness(), self@.outgoing.needs_witness()),
    {
        let r0 = &self.replication_sets[0];
        let r1 = &self.replication_sets[1];
        (
            r0.witness != 0 && r0.excluded != r0.witness,
            r1.witness != 0 && r1.excluded != r1.witness,
        )
    }
}

}
