//! What the operations of a tracker do, told by the fields of nodes, sets and memberships.
use vstd::prelude::*;

use crate::confchange::MapChangeType;
use crate::eraftpb::ConfState;
use crate::quorum;
use crate::quorum::{effects, AckedIndexer};
use crate::tracker;
use crate::tracker::configuration::{Configuration, ConfigurationView};
use crate::tracker::epoch::{Epoch, EpochView, ReplicationSet, ReplicationSetView};
use crate::tracker::laws;
use crate::tracker::progress::{Progress, ProgressState};
use crate::tracker::{ProgressTracker, ScopedAckIndexer, TrackerView};

verus! {

/// The views of a tracker and of what it holds show each field.
pub proof fn law_views_show_fields(
    t: ProgressTracker,
    c: Configuration,
    e: Epoch,
    s: ReplicationSet,
)
    ensures
        t@.progress == t.progress@,
        t@.conf == t.conf@,
        t@.votes == t.votes@,
        t@.max_inflight == t.max_inflight,
        t@.group_commit == t.group_commit,
        t@.epoch == t.epoch@,
        c@.voters == c.voters@,
        c@.learners == c.learners@,
        c@.learners_next == c.learners_next@,
        c@.auto_leave == c.auto_leave,
        c@.witnesses == c.witnesses@,
        e@.subterm == e.subterm,
        e@.incoming == e.replication_sets@[0]@,
        e@.outgoing == e.replication_sets@[1]@,
        e@.witness_subterm == e.witness_subterm@,
        e@.witness_pending_subterm == e.witness_pending_subterm@,
        s@.witness == s.witness,
        s@.excluded == s.excluded,
        s@.non_witness_voters == s.non_witness_voters@,
{
}

/// A new tracker knows no node, no member, no vote and no witness, in subterm 0.
pub proof fn law_fresh_tracker_is_empty(max_inflight: usize, id: u64)
    ensures
        ({
            let t = TrackerView::fresh(max_inflight);
            &&& !t.progress.contains_key(id)
            &&& !t.votes.contains_key(id)
            &&& !t.conf.voters.incoming.contains(id) && !t.conf.voters.outgoing.contains(id)
            &&& !t.conf.learners.contains(id) && !t.conf.learners_next.contains(id)
            &&& !t.conf.auto_leave && t.conf.witnesses == seq![0u64, 0]
            &&& t.max_inflight == max_inflight && !t.group_commit
            &&& t.epoch.subterm == 0
            &&& t.epoch.incoming.witness == 0 && t.epoch.incoming.excluded == 0
            &&& t.epoch.outgoing.witness == 0 && t.epoch.outgoing.excluded == 0
            &&& !t.epoch.incoming.non_witness_voters.contains(id)
            &&& !t.epoch.outgoing.non_witness_voters.contains(id)
            &&& t.epoch.witness_subterm == seq![0u64, 0]
            &&& t.epoch.witness_pending_subterm == seq![0u64, 0]
        }),
{
}

/// A membership made of two lists has the one as its only voters and the other as its learners, is
/// not joint and has no witness.
pub proof fn law_simple_membership(voters: Set<u64>, learners: Set<u64>, id: u64)
    ensures
        ({
            let c = ConfigurationView::simple(voters, learners);
            &&& c.voters.incoming.contains(id) <==> voters.contains(id)
            &&& !c.voters.outgoing.contains(id)
            &&& c.learners.contains(id) <==> learners.contains(id)
            &&& !c.learners_next.contains(id)
            &&& !c.auto_leave
            &&& c.witnesses == seq![0u64, 0]
        }),
{
}

/// A record of a membership lists each group of members, each member once.
pub proof fn law_conf_state_lists_members(c: ConfigurationView, state: ConfState, id: u64)
    requires
        c.recorded_as(state),
    ensures
        state.voters@.contains(id) <==> c.voters.incoming.contains(id),
        state.voters_outgoing@.contains(id) <==> c.voters.outgoing.contains(id),
        state.learners@.contains(id) <==> c.learners.contains(id),
        state.learners_next@.contains(id) <==> c.learners_next.contains(id),
        state.voters@.no_duplicates() && state.voters_outgoing@.no_duplicates(),
        state.learners@.no_duplicates() && state.learners_next@.no_duplicates(),
        state.auto_leave == c.auto_leave,
        state.witness == c.witnesses[0],
        state.witness_outgoing == c.witnesses[1],
{
    assert(state.voters@.to_set().contains(id) <==> state.voters@.contains(id));
    assert(state.voters_outgoing@.to_set().contains(id) <==> state.voters_outgoing@.contains(id));
    assert(state.learners@.to_set().contains(id) <==> state.learners@.contains(id));
    assert(state.learners_next@.to_set().contains(id) <==> state.learners_next@.contains(id));
}

/// What is acknowledged of a tracked node is its matched index, in its commit group.
pub proof fn law_acks_are_matched_indexes(progress: Map<u64, Progress>, id: u64)
    ensures
        tracker::acks_of(progress).contains_key(id) <==> progress.contains_key(id),
        progress.contains_key(id) ==> tracker::acks_of(progress)[id].index == progress[id].matched,
        progress.contains_key(id) ==> tracker::acks_of(progress)[id].group_id
            == progress[id].commit_group_id,
{
}

/// Within a scope, what is acknowledged is that of the nodes in it, and of no others.
pub proof fn law_scope_limits_acks(scoped: ScopedAckIndexer<'_>, id: u64)
    ensures
        scoped.acks().contains_key(id) <==> scoped.scope@.contains(id)
            && scoped.indexer@.contains_key(id),
        scoped.acks().contains_key(id) ==> {
            &&& scoped.acks()[id].index == scoped.indexer@[id].matched
            &&& scoped.acks()[id].group_id == scoped.indexer@[id].commit_group_id
        },
{
}

/// A node whose last change is to be added is tracked afterwards: as active, so that the leader
/// does not step down before the node was heard of, and as one to probe from `next_idx` on, of
/// which nothing else is known. It is a witness where it is named as one.
pub proof fn law_added_node_is_active(
    progress: Map<u64, Progress>,
    changes: Seq<(u64, MapChangeType)>,
    witnesses: Seq<u64>,
    next_idx: u64,
    max_inflight: usize,
    i: int,
)
    requires
        0 <= i < changes.len(),
        changes[i].1 == MapChangeType::Add,
        forall|j: int| i < j < changes.len() ==> (#[trigger] changes[j]).0 != changes[i].0,
    ensures
        ({
            let after = tracker::changed(progress, changes, witnesses, next_idx, max_inflight);
            let id = changes[i].0;
            let p = after[id];
            &&& after.contains_key(id)
            &&& p.recent_active
            &&& p.matched == 0
            &&& p.next_idx == next_idx
            &&& p.state == ProgressState::Probe
            &&& !p.paused
            &&& p.pending_snapshot == 0 && p.pending_request_snapshot == 0
            &&& p.ins.count == 0 && p.ins.cap == max_inflight
            &&& p.commit_group_id == 0 && p.committed_index == 0
            &&& p.is_witness <==> id == witnesses[0] || id == witnesses[1]
        }),
{
    laws::law_last_change_decides(progress, changes, witnesses, next_idx, max_inflight, i);
}

/// A node whose last change is to be removed is not tracked afterwards.
pub proof fn law_removed_node_is_gone(
    progress: Map<u64, Progress>,
    changes: Seq<(u64, MapChangeType)>,
    witnesses: Seq<u64>,
    next_idx: u64,
    max_inflight: usize,
    i: int,
)
    requires
        0 <= i < changes.len(),
        changes[i].1 == MapChangeType::Remove,
        forall|j: int| i < j < changes.len() ==> (#[trigger] changes[j]).0 != changes[i].0,
    ensures
        !tracker::changed(progress, changes, witnesses, next_idx, max_inflight).contains_key(
            changes[i].0,
        ),
{
    laws::law_last_change_decides(progress, changes, witnesses, next_idx, max_inflight, i);
}

/// Right after all voters were added, the active nodes are a quorum from any perspective.
pub proof fn law_added_voters_are_a_quorum(
    conf: quorum::JointView,
    progress: Map<u64, Progress>,
    changes: Seq<(u64, MapChangeType)>,
    witnesses: Seq<u64>,
    next_idx: u64,
    max_inflight: usize,
    perspective_of: u64,
)
    requires
        conf.incoming.finite(),
        conf.outgoing.finite(),
        forall|id: u64|
            #![trigger conf.incoming.contains(id)]
            #![trigger conf.outgoing.contains(id)]
            conf.incoming.contains(id) || conf.outgoing.contains(id) ==> exists|i: int|
                0 <= i < changes.len() && #[trigger] changes[i] == (id, MapChangeType::Add)
                    && forall|j: int| i < j < changes.len() ==> (#[trigger] changes[j]).0 != id,
    ensures
        conf.has_quorum(
            tracker::active_nodes(
                tracker::changed(progress, changes, witnesses, next_idx, max_inflight),
                perspective_of,
            ),
        ),
{
    let after = tracker::changed(progress, changes, witnesses, next_idx, max_inflight);
    let active = tracker::active_nodes(after, perspective_of);
    assert forall|id: u64|
        conf.incoming.contains(id) || conf.outgoing.contains(id) implies active.contains(id) by {
        let i = choose|i: int|
            0 <= i < changes.len() && #[trigger] changes[i] == (id, MapChangeType::Add)
                && forall|j: int| i < j < changes.len() ==> (#[trigger] changes[j]).0 != id;
        law_added_node_is_active(progress, changes, witnesses, next_idx, max_inflight, i);
    }
    assert(conf.incoming.intersect(active) =~= conf.incoming);
    assert(conf.outgoing.intersect(active) =~= conf.outgoing);
    effects::law_quorum_by_counting(conf, active);
}

/// A node counts as active where it is tracked and is the checking node, a witness, or was heard
/// of. A check changes of each tracked node only whether it was heard of: the checking node and the
/// witnesses were, all others must be heard of anew.
pub proof fn law_poll_by_node(progress: Map<u64, Progress>, perspective_of: u64, id: u64)
    ensures
        tracker::active_nodes(progress, perspective_of).contains(id) <==> progress.contains_key(id)
            && (id == perspective_of || progress[id].is_witness || progress[id].recent_active),
        tracker::all_polled(progress, perspective_of).contains_key(id) <==> progress.contains_key(
            id,
        ),
        progress.contains_key(id) ==> ({
            let p = progress[id];
            let q = tracker::all_polled(progress, perspective_of)[id];
            &&& q.recent_active <==> id == perspective_of || p.is_witness
            &&& q.matched == p.matched && q.next_idx == p.next_idx && q.state == p.state
            &&& q.paused == p.paused && q.pending_snapshot == p.pending_snapshot
            &&& q.pending_request_snapshot == p.pending_request_snapshot && q.ins == p.ins
            &&& q.commit_group_id == p.commit_group_id && q.committed_index == p.committed_index
            &&& q.is_witness == p.is_witness
        }),
{
}

/// What a replication set starts with. Without a witness: all voters, nobody left out. With two
/// other voters: all voters but the witness, which is left out. With fewer: those and the witness,
/// nobody left out. Node 0 is nobody.
pub proof fn law_initial_set_by_node(voters: Set<u64>, witness: u64, a: u64, b: u64, id: u64)
    requires
        voters.finite(),
    ensures
        ({
            let set = ReplicationSetView::initial(voters, witness);
            let two = voters.contains(a) && voters.contains(b) && a != b && a != witness && b
                != witness;
            let fewer = forall|x: u64, y: u64| #[trigger]
                voters.contains(x) && #[trigger] voters.contains(y) && x != witness && y != witness
                    ==> x == y;
            &&& set.witness == witness
            &&& witness == 0 ==> set.excluded == 0
            &&& witness != 0 && two ==> set.excluded == witness
            &&& witness != 0 && fewer ==> set.excluded == 0
            &&& id != witness ==> (set.non_witness_voters.contains(id) <==> voters.contains(id))
            &&& witness == 0 || two ==> !set.non_witness_voters.contains(witness)
            &&& witness != 0 && fewer ==> set.non_witness_voters.contains(witness)
        }),
{
    let regular = voters.remove(witness);
    if voters.contains(a) && voters.contains(b) && a != b && a != witness && b != witness {
        assert(set![a, b].len() == 2);
        vstd::set_lib::lemma_len_subset(set![a, b], regular);
    }
    if forall|x: u64, y: u64| #[trigger]
        voters.contains(x) && #[trigger] voters.contains(y) && x != witness && y != witness ==> x
            == y {
        if regular.len() >= 2 {
            let x = regular.choose();
            let rest = regular.remove(x);
            let y = rest.choose();
            assert(regular.contains(x));
            assert(rest.contains(y));
            assert(voters.contains(x) && voters.contains(y));
            assert(false);
        }
    }
}

/// An election or a membership change starts with the sets of the current membership, in subterm 0
/// or the next one, and with no witness contacted.
pub proof fn law_reset_starts_over(t: TrackerView, reset_subterm: bool)
    requires
        reset_subterm || t.epoch.subterm < u64::MAX,
    ensures
        ({
            let e = t.reset_epoch(reset_subterm);
            &&& reset_subterm ==> e.subterm == 0
            &&& !reset_subterm ==> e.subterm == t.epoch.subterm + 1
            &&& e.witness_subterm == seq![0u64, 0]
            &&& e.witness_pending_subterm == seq![0u64, 0]
            &&& e.incoming == ReplicationSetView::initial(
                t.conf.voters.incoming,
                t.conf.witnesses[0],
            )
            &&& e.outgoing == ReplicationSetView::initial(
                t.conf.voters.outgoing,
                t.conf.witnesses[1],
            )
        }),
{
}

/// While the witness is left out, a member that is tracked, not heard of and not the leader makes
/// room for it, whatever else is known of the member.
pub proof fn law_lost_member_makes_room(
    set: ReplicationSetView,
    progress: Map<u64, Progress>,
    leader: Option<u64>,
    lost: u64,
    to: Option<ReplicationSetView>,
)
    requires
        set.witness != 0,
        set.excluded == set.witness,
        !set.non_witness_voters.contains(set.witness),
        set.non_witness_voters.contains(lost),
        progress.contains_key(lost),
        !progress[lost].recent_active,
        leader != Some(lost),
        set.adjusts_to(progress, leader, to),
    ensures
        to matches Some(next) && {
            &&& set.non_witness_voters.contains(next.excluded)
            &&& progress.contains_key(next.excluded)
            &&& !progress[next.excluded].recent_active
            &&& leader != Some(next.excluded)
            &&& next.witness == set.witness
            &&& next.non_witness_voters == set.non_witness_voters.remove(next.excluded).insert(
                set.witness,
            )
        },
{
    assert(set.is_lost(progress, leader, lost));
    assert(set.is_inactive(progress, leader, lost));
}

/// The same while another node is left out that cannot come back: it is not tracked, not heard of,
/// or a regular voter to which appends are not streamed.
pub proof fn law_lost_member_makes_room_while_another_is_out(
    set: ReplicationSetView,
    progress: Map<u64, Progress>,
    leader: Option<u64>,
    lost: u64,
    to: Option<ReplicationSetView>,
)
    requires
        set.witness != 0,
        !set.non_witness_voters.contains(set.witness),
        set.excluded == 0 || !progress.contains_key(set.excluded)
            || !progress[set.excluded].recent_active || (set.excluded != set.witness
            && progress[set.excluded].state != ProgressState::Replicate),
        set.non_witness_voters.contains(lost),
        progress.contains_key(lost),
        !progress[lost].recent_active,
        leader != Some(lost),
        set.adjusts_to(progress, leader, to),
    ensures
        to matches Some(next) && {
            &&& set.non_witness_voters.contains(next.excluded)
            &&& progress.contains_key(next.excluded)
            &&& !progress[next.excluded].recent_active
            &&& leader != Some(next.excluded)
            &&& next.witness == set.witness
            &&& next.non_witness_voters == set.non_witness_voters.remove(next.excluded).insert(
                set.witness,
            )
        },
{
    assert(set.is_lost(progress, leader, lost));
}

/// A node that is left out and is heard of again, the witness or a voter to which appends are
/// streamed, takes the place of a member or witness that is tracked, not heard of and not the
/// leader, whatever else is known of that one.
pub proof fn law_recovered_node_replaces_inactive(
    set: ReplicationSetView,
    progress: Map<u64, Progress>,
    leader: Option<u64>,
    inactive: u64,
    to: Option<ReplicationSetView>,
)
    requires
        !progress.contains_key(0),
        set.excluded != 0,
        progress.contains_key(set.excluded),
        progress[set.excluded].recent_active,
        set.excluded == set.witness || progress[set.excluded].state == ProgressState::Replicate,
        set.non_witness_voters.contains(inactive) || inactive == set.witness,
        progress.contains_key(inactive),
        !progress[inactive].recent_active,
        leader != Some(inactive),
        set.adjusts_to(progress, leader, to),
    ensures
        to matches Some(next) && {
            &&& set.non_witness_voters.contains(next.excluded) || next.excluded == set.witness
            &&& progress.contains_key(next.excluded)
            &&& !progress[next.excluded].recent_active
            &&& leader != Some(next.excluded)
            &&& next.witness == set.witness
            &&& next.non_witness_voters == set.non_witness_voters.remove(next.excluded).insert(
                set.excluded,
            )
        },
{
    assert(set.is_inactive(progress, leader, inactive));
}

/// A voter that is left out, is heard of again and to which appends are streamed takes its place
/// back from the witness, where no member nor the witness is missing (all but the leader were heard
/// of, or are not tracked).
pub proof fn law_recovered_voter_replaces_witness(
    set: ReplicationSetView,
    progress: Map<u64, Progress>,
    leader: Option<u64>,
    to: Option<ReplicationSetView>,
)
    requires
        set.excluded != 0,
        set.excluded != set.witness,
        progress.contains_key(set.excluded),
        progress[set.excluded].recent_active,
        progress[set.excluded].state == ProgressState::Replicate,
        forall|id: u64| #[trigger]
            progress.contains_key(id) && (set.non_witness_voters.contains(id) || id
                == set.witness) ==> progress[id].recent_active || leader == Some(id),
        set.adjusts_to(progress, leader, to),
    ensures
        to matches Some(next) && {
            &&& next.excluded == set.witness
            &&& next.witness == set.witness
            &&& next.non_witness_voters == set.non_witness_voters.remove(set.witness).insert(
                set.excluded,
            )
        },
{
}

/// A set stays where nobody can come back and nobody is to make room: the node that is left out is
/// none, is not tracked, not heard of, or a regular voter to which appends are not streamed; or it
/// is the witness, and no member is missing. And there is no witness, or it is a member, or no
/// member is missing.
pub proof fn law_set_stays_otherwise(
    set: ReplicationSetView,
    progress: Map<u64, Progress>,
    leader: Option<u64>,
    to: Option<ReplicationSetView>,
)
    requires
        ({
            let none_missing = forall|id: u64| #[trigger]
                progress.contains_key(id) && set.non_witness_voters.contains(id)
                    ==> progress[id].recent_active || leader == Some(id);
            let cannot_return = set.excluded == 0 || !progress.contains_key(set.excluded)
                || !progress[set.excluded].recent_active || (set.excluded != set.witness
                && progress[set.excluded].state != ProgressState::Replicate);
            &&& cannot_return || (set.excluded == set.witness && none_missing)
            &&& set.witness == 0 || set.non_witness_voters.contains(set.witness) || none_missing
        }),
        set.adjusts_to(progress, leader, to),
    ensures
        to is None,
{
}

/// Only the witness, or a node that is tracked, not heard of and not the leader, is left out. Every
/// member other than the witness that was heard of, is not tracked or is the leader stays.
pub proof fn law_only_inactive_nodes_leave(
    set: ReplicationSetView,
    progress: Map<u64, Progress>,
    leader: Option<u64>,
    to: ReplicationSetView,
    id: u64,
)
    requires
        set.adjusts_to(progress, leader, Some(to)),
    ensures
        to.excluded == set.witness || (progress.contains_key(to.excluded)
            && !progress[to.excluded].recent_active && leader != Some(to.excluded)),
        set.non_witness_voters.contains(id) && id != set.witness && (!progress.contains_key(id)
            || progress[id].recent_active || leader == Some(id))
            ==> to.non_witness_voters.contains(id),
        to.non_witness_voters.contains(id) && !set.non_witness_voters.contains(id) ==> id
            == set.excluded || id == set.witness,
{
}

/// An adjustment of an epoch adjusts both halves. Where either changes, it says so, and the next
/// subterm starts, with no witness contacted; a half that does not change is kept. Where neither
/// does, it says so and changes nothing.
pub proof fn law_epoch_adjusts_both_halves(
    from: EpochView,
    progress: Map<u64, Progress>,
    leader: Option<u64>,
    changed: bool,
    to: EpochView,
) -> (halves: (Option<ReplicationSetView>, Option<ReplicationSetView>))
    requires
        from.subterm < u64::MAX,
        from.adjusts_to(progress, leader, changed, to),
    ensures
        from.incoming.adjusts_to(progress, leader, halves.0),
        from.outgoing.adjusts_to(progress, leader, halves.1),
        match halves.0 {
            Some(set) => changed && to.incoming == set,
            None => to.incoming == from.incoming,
        },
        match halves.1 {
            Some(set) => changed && to.outgoing == set,
            None => to.outgoing == from.outgoing,
        },
        changed ==> halves.0 is Some || halves.1 is Some,
        changed ==> {
            &&& to.subterm == from.subterm + 1
            &&& to.witness_subterm == seq![0u64, 0]
            &&& to.witness_pending_subterm == seq![0u64, 0]
        },
        !changed ==> {
            &&& to.subterm == from.subterm
            &&& to.witness_subterm == from.witness_subterm
            &&& to.witness_pending_subterm == from.witness_pending_subterm
        },
{
    choose|incoming: Option<ReplicationSetView>, outgoing: Option<ReplicationSetView>|
        {
            &&& #[trigger] from.incoming.adjusts_to(progress, leader, incoming)
            &&& #[trigger] from.outgoing.adjusts_to(progress, leader, outgoing)
            &&& changed == (incoming is Some || outgoing is Some)
            &&& to == if changed {
                EpochView::started(
                    (from.subterm + 1) as u64,
                    match incoming {
                        Some(set) => set,
                        None => from.incoming,
                    },
                    match outgoing {
                        Some(set) => set,
                        None => from.outgoing,
                    },
                )
            } else {
                from
            }
        }
}

/// In the incoming half of an epoch whose witness is left out, a member that is tracked, not heard
/// of and not the leader makes room for the witness: the next subterm starts, and the witness is a
/// member that is to receive shortcut replication.
pub proof fn law_incoming_witness_stands_in(
    from: EpochView,
    progress: Map<u64, Progress>,
    leader: Option<u64>,
    lost: u64,
    changed: bool,
    to: EpochView,
)
    requires
        from.subterm < u64::MAX,
        from.adjusts_to(progress, leader, changed, to),
        from.incoming.witness != 0,
        from.incoming.excluded == from.incoming.witness,
        !from.incoming.non_witness_voters.contains(from.incoming.witness),
        from.incoming.non_witness_voters.contains(lost),
        progress.contains_key(lost),
        !progress[lost].recent_active,
        leader != Some(lost),
    ensures
        changed,
        to.subterm == from.subterm + 1,
        ({
            let out = to.incoming.excluded;
            &&& from.incoming.non_witness_voters.contains(out)
            &&& progress.contains_key(out)
            &&& !progress[out].recent_active
            &&& leader != Some(out)
            &&& to.incoming.witness == from.incoming.witness
            &&& to.incoming.non_witness_voters == from.incoming.non_witness_voters.remove(
                out,
            ).insert(from.incoming.witness)
            &&& to.incoming.excluded != to.incoming.witness
        }),
{
    let halves = law_epoch_adjusts_both_halves(from, progress, leader, changed, to);
    law_lost_member_makes_room(from.incoming, progress, leader, lost, halves.0);
}

/// The same in the outgoing half.
pub proof fn law_outgoing_witness_stands_in(
    from: EpochView,
    progress: Map<u64, Progress>,
    leader: Option<u64>,
    lost: u64,
    changed: bool,
    to: EpochView,
)
    requires
        from.subterm < u64::MAX,
        from.adjusts_to(progress, leader, changed, to),
        from.outgoing.witness != 0,
        from.outgoing.excluded == from.outgoing.witness,
        !from.outgoing.non_witness_voters.contains(from.outgoing.witness),
        from.outgoing.non_witness_voters.contains(lost),
        progress.contains_key(lost),
        !progress[lost].recent_active,
        leader != Some(lost),
    ensures
        changed,
        to.subterm == from.subterm + 1,
        ({
            let out = to.outgoing.excluded;
            &&& from.outgoing.non_witness_voters.contains(out)
            &&& progress.contains_key(out)
            &&& !progress[out].recent_active
            &&& leader != Some(out)
            &&& to.outgoing.witness == from.outgoing.witness
            &&& to.outgoing.non_witness_voters == from.outgoing.non_witness_voters.remove(
                out,
            ).insert(from.outgoing.witness)
            &&& to.outgoing.excluded != to.outgoing.witness
        }),
{
    let halves = law_epoch_adjusts_both_halves(from, progress, leader, changed, to);
    law_lost_member_makes_room(from.outgoing, progress, leader, lost, halves.1);
}

/// A witness is to receive shortcut replication where there is one and it is not left out.
pub proof fn law_needs_witness(set: ReplicationSetView)
    ensures
        set.needs_witness() <==> set.witness != 0 && set.excluded != set.witness,
{
}

/// An index is computed for exactly those witnesses that are not left out of their half.
pub proof fn law_shortcut_for_each_witness(t: TrackerView, id: u64)
    ensures
        t.shortcut_indexes().contains_key(id) <==> id != 0 && ((id == t.epoch.incoming.witness && id
            != t.epoch.incoming.excluded) || (id == t.epoch.outgoing.witness && id
            != t.epoch.outgoing.excluded)),
{
}

/// Two trackers with the same voters, the same replication sets and the same matched indexes of
/// those in both the set and the half compute the same indexes: nobody else's progress counts.
pub proof fn law_shortcut_depends_on_members_only(t: TrackerView, u: TrackerView)
    requires
        t.conf.voters == u.conf.voters,
        t.epoch.incoming == u.epoch.incoming,
        t.epoch.outgoing == u.epoch.outgoing,
        t.conf.voters.incoming.finite(),
        t.conf.voters.outgoing.finite(),
        forall|id: u64|
            (t.epoch.incoming.non_witness_voters.contains(id)
                || t.epoch.outgoing.non_witness_voters.contains(id)) ==> {
                &&& #[trigger] t.progress.contains_key(id) <==> u.progress.contains_key(id)
                &&& t.progress.contains_key(id) ==> t.progress[id].matched == u.progress[id].matched
            },
    ensures
        t.shortcut_indexes() == u.shortcut_indexes(),
{
    lemma_one_less_of_members(
        t.conf.voters.incoming,
        t.progress,
        u.progress,
        t.epoch.incoming.non_witness_voters,
    );
    lemma_one_less_of_members(
        t.conf.voters.outgoing,
        t.progress,
        u.progress,
        t.epoch.outgoing.non_witness_voters,
    );
}

proof fn lemma_one_less_of_members(
    voters: Set<u64>,
    p: Map<u64, Progress>,
    q: Map<u64, Progress>,
    scope: Set<u64>,
)
    requires
        voters.finite(),
        forall|id: u64|
            scope.contains(id) ==> {
                &&& #[trigger] p.contains_key(id) <==> q.contains_key(id)
                &&& p.contains_key(id) ==> p[id].matched == q[id].matched
            },
    ensures
        quorum::majority_one_less(voters, tracker::acks_of(p).restrict(scope))
            == quorum::majority_one_less(voters, tracker::acks_of(q).restrict(scope)),
{
    lemma_one_less_no_greater(voters, p, q, scope);
    lemma_one_less_no_greater(voters, q, p, scope);
}

proof fn lemma_one_less_no_greater(
    voters: Set<u64>,
    p: Map<u64, Progress>,
    q: Map<u64, Progress>,
    scope: Set<u64>,
)
    requires
        voters.finite(),
        forall|id: u64|
            scope.contains(id) ==> {
                &&& #[trigger] p.contains_key(id) <==> q.contains_key(id)
                &&& p.contains_key(id) ==> p[id].matched == q[id].matched
            },
    ensures
        quorum::majority_one_less(voters, tracker::acks_of(p).restrict(scope))
            <= quorum::majority_one_less(voters, tracker::acks_of(q).restrict(scope)),
{
    let index = quorum::majority_one_less(voters, tracker::acks_of(p).restrict(scope));
    let backers = effects::law_one_less_lacks_one(voters, tracker::acks_of(p).restrict(scope));
    if index > 0 {
        effects::law_one_less_is_greatest(
            voters,
            tracker::acks_of(q).restrict(scope),
            backers,
            index,
        );
    }
}

/// The index for the witness of the outgoing half, or for that of the incoming half unless the
/// outgoing one has the same: at least as great as any that lacks at most one acknowledgement for
/// more than half of the voters, counting voters in the replication set alone.
pub proof fn law_shortcut_index_is_greatest(t: TrackerView, backers: Set<u64>, index: u64)
    requires
        t.conf.voters.incoming.finite(),
        t.conf.voters.outgoing.finite(),
        forall|id: u64| #[trigger]
            backers.contains(id) ==> t.progress.contains_key(id) && t.progress[id].matched >= index,
    ensures
        ({
            let e = t.epoch;
            let outgoing = e.outgoing.witness != 0 && e.outgoing.excluded != e.outgoing.witness;
            let incoming = e.incoming.witness != 0 && e.incoming.excluded != e.incoming.witness;
            &&& outgoing && backers.subset_of(t.conf.voters.outgoing) && backers.subset_of(
                e.outgoing.non_witness_voters,
            ) && 2 * (backers.len() + 1) > t.conf.voters.outgoing.len()
                ==> t.shortcut_indexes()[e.outgoing.witness] >= index
            &&& incoming && !(outgoing && e.outgoing.witness == e.incoming.witness)
                && backers.subset_of(t.conf.voters.incoming) && backers.subset_of(
                e.incoming.non_witness_voters,
            ) && 2 * (backers.len() + 1) > t.conf.voters.incoming.len()
                ==> t.shortcut_indexes()[e.incoming.witness] >= index
        }),
{
    let e = t.epoch;
    let acks = tracker::acks_of(t.progress);
    if backers.subset_of(t.conf.voters.outgoing) && backers.subset_of(e.outgoing.non_witness_voters)
        && 2 * (backers.len() + 1) > t.conf.voters.outgoing.len() {
        effects::law_one_less_is_greatest(
            t.conf.voters.outgoing,
            acks.restrict(e.outgoing.non_witness_voters),
            backers,
            index,
        );
    }
    if backers.subset_of(t.conf.voters.incoming) && backers.subset_of(e.incoming.non_witness_voters)
        && 2 * (backers.len() + 1) > t.conf.voters.incoming.len() {
        effects::law_one_less_is_greatest(
            t.conf.voters.incoming,
            acks.restrict(e.incoming.non_witness_voters),
            backers,
            index,
        );
    }
}

/// The index for the witness of the outgoing half, where it is not 0, lacks at most one
/// acknowledgement for more than half of the voters, counting voters in the replication set alone.
pub proof fn law_outgoing_shortcut_index_lacks_one(t: TrackerView) -> (backers: Set<u64>)
    requires
        t.conf.voters.outgoing.finite(),
        t.epoch.outgoing.witness != 0,
        t.epoch.outgoing.excluded != t.epoch.outgoing.witness,
        t.shortcut_indexes()[t.epoch.outgoing.witness] > 0,
    ensures
        backers.subset_of(t.conf.voters.outgoing),
        backers.subset_of(t.epoch.outgoing.non_witness_voters),
        2 * (backers.len() + 1) > t.conf.voters.outgoing.len(),
        forall|id: u64| #[trigger]
            backers.contains(id) ==> t.progress.contains_key(id) && t.progress[id].matched
                >= t.shortcut_indexes()[t.epoch.outgoing.witness],
{
    effects::law_one_less_lacks_one(
        t.conf.voters.outgoing,
        tracker::acks_of(t.progress).restrict(t.epoch.outgoing.non_witness_voters),
    )
}

/// The same of the incoming half, unless the outgoing one has the same witness.
pub proof fn law_incoming_shortcut_index_lacks_one(t: TrackerView) -> (backers: Set<u64>)
    requires
        t.conf.voters.incoming.finite(),
        t.epoch.incoming.witness != 0,
        t.epoch.incoming.excluded != t.epoch.incoming.witness,
        t.epoch.outgoing.witness != t.epoch.incoming.witness || t.epoch.outgoing.excluded
            == t.epoch.outgoing.witness,
        t.shortcut_indexes()[t.epoch.incoming.witness] > 0,
    ensures
        backers.subset_of(t.conf.voters.incoming),
        backers.subset_of(t.epoch.incoming.non_witness_voters),
        2 * (backers.len() + 1) > t.conf.voters.incoming.len(),
        forall|id: u64| #[trigger]
            backers.contains(id) ==> t.progress.contains_key(id) && t.progress[id].matched
                >= t.shortcut_indexes()[t.epoch.incoming.witness],
{
    effects::law_one_less_lacks_one(
        t.conf.voters.incoming,
        tracker::acks_of(t.progress).restrict(t.epoch.incoming.non_witness_voters),
    )
}

}
