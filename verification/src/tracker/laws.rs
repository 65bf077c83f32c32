//! What holds of replication sets, and of the tracker, in general.
use vstd::prelude::*;

use crate::confchange::MapChangeType;
use crate::eraftpb::ConfState;
use crate::quorum;
use crate::quorum::laws;
use crate::tracker;
use crate::tracker::configuration::ConfigurationView;
use crate::tracker::epoch;
use crate::tracker::epoch::{EpochView, ReplicationSetView};
use crate::tracker::progress::{Progress, ProgressState};
use crate::tracker::TrackerView;

verus! {

/// The shape of the replication sets that arise from a membership: node 0 is nobody, the node that
/// is left out is no member, only with a witness is a node left out, and the witness is a member
/// or is left out.
pub open spec fn well_formed(set: ReplicationSetView) -> bool {
    &&& set.non_witness_voters.finite()
    &&& !set.non_witness_voters.contains(0)
    &&& !set.non_witness_voters.contains(set.excluded)
    &&& set.witness == 0 ==> set.excluded == 0
    &&& set.witness != 0 ==> set.non_witness_voters.contains(set.witness) || set.excluded
        == set.witness
}

/// The members and the node that is left out.
pub open spec fn everyone(set: ReplicationSetView) -> Set<u64> {
    if set.excluded == 0 {
        set.non_witness_voters
    } else {
        set.non_witness_voters.insert(set.excluded)
    }
}

/// All nodes are heard of.
pub open spec fn all_active(progress: Map<u64, Progress>) -> bool {
    forall|id: u64| #[trigger] progress.contains_key(id) ==> progress[id].recent_active
}

/// A replication set starts with all voters but the witness, and with the witness too where fewer
/// than two others remain. Nobody but the witness is left out at first, and without a witness
/// nobody is.
pub proof fn law_initial_set(voters: Set<u64>, witness: u64)
    requires
        voters.finite(),
        !voters.contains(0),
    ensures
        ({
            let set = ReplicationSetView::initial(voters, witness);
            &&& well_formed(set)
            &&& set.witness == witness
            &&& set.excluded == 0 || set.excluded == witness
            &&& witness == 0 ==> set.non_witness_voters == voters
            &&& witness != 0 ==> everyone(set) == voters.insert(witness)
            &&& set.needs_witness() <==> witness != 0 && voters.remove(witness).len() < 2
        }),
{
    let set = ReplicationSetView::initial(voters, witness);
    if witness == 0 {
        assert(set.non_witness_voters =~= voters);
    } else {
        assert(everyone(set) =~= voters.insert(witness));
    }
}

/// On an election and on a membership change the replication sets of both halves take their shape.
pub proof fn law_reset_establishes_shape(t: TrackerView, reset_subterm: bool)
    requires
        t.conf.voters.incoming.finite(),
        t.conf.voters.outgoing.finite(),
        !t.conf.voters.ids().contains(0),
    ensures
        well_formed(t.reset_epoch(reset_subterm).incoming),
        well_formed(t.reset_epoch(reset_subterm).outgoing),
{
    law_initial_set(t.conf.voters.incoming, t.conf.witnesses[0]);
    law_initial_set(t.conf.voters.outgoing, t.conf.witnesses[1]);
}

/// An adjustment swaps the node that was left out with a member: the witness, the number of
/// members, and all those who are members or left out stay the same, and so does the shape.
pub proof fn law_adjustment_swaps(
    set: ReplicationSetView,
    progress: Map<u64, Progress>,
    leader: Option<u64>,
    to: ReplicationSetView,
)
    requires
        well_formed(set),
        set.adjusts_to(progress, leader, Some(to)),
    ensures
        well_formed(to),
        to.witness == set.witness,
        to.non_witness_voters.len() == set.non_witness_voters.len(),
        everyone(to) == everyone(set),
        set.non_witness_voters.contains(to.excluded),
        to.non_witness_voters.contains(set.excluded),
{
    assert(everyone(to) =~= everyone(set));
}

/// Only the witness and nodes that were not heard of are left out: every other member stays one,
/// and so does the leader, unless it is the witness.
pub proof fn law_active_voters_stay(
    set: ReplicationSetView,
    progress: Map<u64, Progress>,
    leader: Option<u64>,
    to: ReplicationSetView,
)
    requires
        set.adjusts_to(progress, leader, Some(to)),
    ensures
        to.excluded == set.witness || epoch::unreachable(progress, leader, to.excluded),
        forall|id: u64|
            set.non_witness_voters.contains(id) && id != set.witness && !epoch::unreachable(
                progress,
                leader,
                id,
            ) ==> #[trigger] to.non_witness_voters.contains(id),
        leader matches Some(id) ==> id != set.witness ==> to.excluded != id,
{
}

/// Without a witness a replication set never changes.
pub proof fn law_no_change_without_witness(
    set: ReplicationSetView,
    progress: Map<u64, Progress>,
    leader: Option<u64>,
    to: Option<ReplicationSetView>,
)
    requires
        well_formed(set),
        set.witness == 0,
        set.adjusts_to(progress, leader, to),
    ensures
        to is None,
{
}

/// While the witness is left out, or nobody is, and all nodes are active, nothing changes.
pub proof fn law_steady_while_active(
    set: ReplicationSetView,
    progress: Map<u64, Progress>,
    leader: Option<u64>,
    to: Option<ReplicationSetView>,
)
    requires
        well_formed(set),
        set.excluded == 0 || set.excluded == set.witness,
        all_active(progress),
        set.adjusts_to(progress, leader, to),
    ensures
        to is None,
{
}

/// While the witness is left out, a member that is not heard of makes room for it: the witness
/// becomes a member and is to receive shortcut replication.
pub proof fn law_witness_stands_in(
    set: ReplicationSetView,
    progress: Map<u64, Progress>,
    leader: Option<u64>,
    lost: u64,
    to: Option<ReplicationSetView>,
)
    requires
        well_formed(set),
        set.witness != 0,
        set.excluded == set.witness,
        set.is_lost(progress, leader, lost),
        set.adjusts_to(progress, leader, to),
    ensures
        to matches Some(next) && {
            &&& set.is_lost(progress, leader, next.excluded)
            &&& next == set.swapped(next.excluded, set.witness)
            &&& next.needs_witness()
        },
{
    assert(set.is_inactive(progress, leader, lost));
}

/// When a voter whose place the witness took is back, and all nodes are active, the replication set
/// is again what it was before.
pub proof fn law_recovery_restores(
    set: ReplicationSetView,
    before: Map<u64, Progress>,
    after: Map<u64, Progress>,
    leader: Option<u64>,
    degraded: ReplicationSetView,
    to: Option<ReplicationSetView>,
)
    requires
        well_formed(set),
        set.excluded == set.witness,
        set.adjusts_to(before, leader, Some(degraded)),
        all_active(after),
        after.contains_key(degraded.excluded),
        after[degraded.excluded].state == ProgressState::Replicate,
        degraded.adjusts_to(after, leader, to),
    ensures
        to == Some(set),
{
    law_adjustment_swaps(set, before, leader, degraded);
    assert(degraded.recovers(after));
    assert(degraded.swapped(degraded.witness, degraded.excluded) =~= set);
}

/// An adjustment either leaves an epoch as it is or starts the next subterm, in which no witness
/// has been contacted yet. Either way the replication sets keep their shape, their witnesses and
/// all those who are members or left out.
pub proof fn law_epoch_adjustment(
    from: EpochView,
    progress: Map<u64, Progress>,
    leader: Option<u64>,
    changed: bool,
    to: EpochView,
)
    requires
        from.subterm < u64::MAX,
        well_formed(from.incoming),
        well_formed(from.outgoing),
        from.adjusts_to(progress, leader, changed, to),
    ensures
        changed <==> to != from,
        changed ==> {
            &&& to.subterm == from.subterm + 1
            &&& to.witness_subterm == seq![0u64, 0]
            &&& to.witness_pending_subterm == seq![0u64, 0]
            &&& to.incoming != from.incoming || to.outgoing != from.outgoing
        },
        well_formed(to.incoming) && well_formed(to.outgoing),
        to.incoming.witness == from.incoming.witness,
        to.outgoing.witness == from.outgoing.witness,
        everyone(to.incoming) == everyone(from.incoming),
        everyone(to.outgoing) == everyone(from.outgoing),
{
    let (incoming, outgoing) = choose|
        incoming: Option<ReplicationSetView>,
        outgoing: Option<ReplicationSetView>,
    |
        {
            &&& #[trigger] from.incoming.adjusts_to(progress, leader, incoming)
            &&& #[trigger] from.outgoing.adjusts_to(progress, leader, outgoing)
            &&& changed == (incoming is Some || outgoing is Some)
            &&& to == if changed {
                EpochView::started(
                    (from.subterm + 1) as u64,
                    match incoming {
                        Some(set) => set,
                        None => from.incoming,
                    },
                    match outgoing {
                        Some(set) => set,
                        None => from.outgoing,
                    },
                )
            } else {
                from
            }
        };
    if let Some(set) = incoming {
        law_adjustment_swaps(from.incoming, progress, leader, set);
    }
    if let Some(set) = outgoing {
        law_adjustment_swaps(from.outgoing, progress, leader, set);
    }
}

/// The leader of a half stays a member of it through every adjustment that it leads.
pub proof fn law_leader_stays_member(
    from: EpochView,
    progress: Map<u64, Progress>,
    leader: u64,
    changed: bool,
    to: EpochView,
)
    requires
        from.adjusts_to(progress, Some(leader), changed, to),
    ensures
        from.incoming.non_witness_voters.contains(leader) && leader != from.incoming.witness
            ==> to.incoming.non_witness_voters.contains(leader),
        from.outgoing.non_witness_voters.contains(leader) && leader != from.outgoing.witness
            ==> to.outgoing.non_witness_voters.contains(leader),
{
}

/// A half of a joint configuration that needs no adjustment is kept as it is when the other half
/// is adjusted.
pub proof fn law_other_half_is_kept(
    from: EpochView,
    progress: Map<u64, Progress>,
    leader: Option<u64>,
    changed: bool,
    to: EpochView,
)
    requires
        from.adjusts_to(progress, leader, changed, to),
    ensures
        (forall|set: Option<ReplicationSetView>| #[trigger]
            from.incoming.adjusts_to(progress, leader, set) ==> set is None) ==> to.incoming
            == from.incoming,
        (forall|set: Option<ReplicationSetView>| #[trigger]
            from.outgoing.adjusts_to(progress, leader, set) ==> set is None) ==> to.outgoing
            == from.outgoing,
{
}

/// The last change that names a node decides whether it is tracked; a node that is added is known
/// afresh.
pub proof fn law_last_change_decides(
    progress: Map<u64, Progress>,
    changes: Seq<(u64, MapChangeType)>,
    witnesses: Seq<u64>,
    next_idx: u64,
    max_inflight: usize,
    i: int,
)
    requires
        0 <= i < changes.len(),
        forall|j: int| i < j < changes.len() ==> (#[trigger] changes[j]).0 != changes[i].0,
    ensures
        ({
            let after = tracker::changed(progress, changes, witnesses, next_idx, max_inflight);
            let id = changes[i].0;
            &&& after.contains_key(id) <==> changes[i].1 is Add
            &&& changes[i].1 is Add ==> after[id] == tracker::added(
                id,
                witnesses,
                next_idx,
                max_inflight,
            )
        }),
    decreases changes.len(),
{
    if i < changes.len() - 1 {
        law_last_change_decides(
            progress,
            changes.drop_last(),
            witnesses,
            next_idx,
            max_inflight,
            i,
        );
        assert(changes.last().0 != changes[i].0);
    }
}

/// A node that no change names is known as before.
pub proof fn law_unnamed_node_is_kept(
    progress: Map<u64, Progress>,
    changes: Seq<(u64, MapChangeType)>,
    witnesses: Seq<u64>,
    next_idx: u64,
    max_inflight: usize,
    id: u64,
)
    requires
        forall|j: int| 0 <= j < changes.len() ==> (#[trigger] changes[j]).0 != id,
    ensures
        ({
            let after = tracker::changed(progress, changes, witnesses, next_idx, max_inflight);
            &&& after.contains_key(id) <==> progress.contains_key(id)
            &&& progress.contains_key(id) ==> after[id] == progress[id]
        }),
    decreases changes.len(),
{
    if changes.len() > 0 {
        law_unnamed_node_is_kept(
            progress,
            changes.drop_last(),
            witnesses,
            next_idx,
            max_inflight,
            id,
        );
        assert(changes.last().0 != id);
    }
}

/// A check of who is active forgets what was heard before: a second one finds active only the
/// checking node and the witnesses, which always are.
pub proof fn law_poll_forgets(progress: Map<u64, Progress>, perspective_of: u64, id: u64)
    ensures
        ({
            let polled = tracker::all_polled(progress, perspective_of);
            &&& polled.dom() == progress.dom()
            &&& tracker::active_nodes(polled, perspective_of).contains(id)
                <==> progress.contains_key(id) && (id == perspective_of || progress[id].is_witness)
            &&& tracker::active_nodes(polled, perspective_of).subset_of(
                tracker::active_nodes(progress, perspective_of),
            )
        }),
{
    assert(tracker::all_polled(progress, perspective_of).dom() =~= progress.dom());
}

/// Shortcut replication commits: once the witness acknowledges the index that its replication set
/// lacks at most one acknowledgement for, a majority of the voters has that index.
pub proof fn law_witness_ack_commits(
    voters: Set<u64>,
    progress: Map<u64, Progress>,
    set: ReplicationSetView,
    acknowledged: Progress,
)
    requires
        voters.finite(),
        voters.contains(set.witness),
        ({
            let scoped = tracker::acks_of(progress).restrict(set.non_witness_voters);
            let index = quorum::majority_one_less(voters, scoped);
            &&& quorum::ack_of(scoped, set.witness).index < index
            &&& acknowledged.matched >= index
        }),
    ensures
        quorum::majority_committed(
            voters,
            tracker::acks_of(progress.insert(set.witness, acknowledged)),
            false,
        ).0 >= quorum::majority_one_less(
            voters,
            tracker::acks_of(progress).restrict(set.non_witness_voters),
        ),
{
    let scoped = tracker::acks_of(progress).restrict(set.non_witness_voters);
    let ack = quorum::Index {
        index: acknowledged.matched,
        group_id: acknowledged.commit_group_id,
    };
    let after = tracker::acks_of(progress.insert(set.witness, acknowledged));
    laws::law_one_more_ack_commits(voters, scoped, set.witness, ack);
    let conf = quorum::JointView { incoming: voters, outgoing: Set::empty() };
    assert(laws::advances(after, scoped.insert(set.witness, ack)));
    laws::law_committed_advances(conf, scoped.insert(set.witness, ack), after);
}

/// In a membership made of voters and learners the roles are clear exactly when nobody is in both
/// lists; with no members they are.
pub proof fn law_roles_of_simple_membership(voters: Set<u64>, learners: Set<u64>)
    ensures
        ConfigurationView::simple(voters, learners).roles_are_clear() <==> voters.disjoint(
            learners,
        ),
        ConfigurationView::simple(Set::empty(), Set::empty()).roles_are_clear(),
{
    let ids = voters.union(Set::<u64>::empty());
    assert(ids =~= voters);
}

/// A record determines the membership it was made from.
pub proof fn law_record_determines_membership(
    a: ConfigurationView,
    b: ConfigurationView,
    state: ConfState,
)
    requires
        a.witnesses.len() == 2,
        b.witnesses.len() == 2,
        a.recorded_as(state),
        b.recorded_as(state),
    ensures
        a == b,
{
    assert(a.witnesses =~= b.witnesses);
}

}
