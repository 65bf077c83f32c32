//! What callers of a tracker see, on its fields before and after a call.
use std::collections::{HashMap, HashSet};

use vstd::prelude::*;

use crate::confchange::{MapChange, MapChangeType};
use crate::eraftpb::ConfState;
use crate::quorum;
use crate::quorum::{AckedIndexer, JointConfig, VoteResult};
use crate::sets;
use crate::tracker;
use crate::tracker::configuration::Configuration;
use crate::tracker::effects;
use crate::tracker::epoch::Epoch;
use crate::tracker::laws;
use crate::tracker::progress::{Progress, ProgressState};
use crate::tracker::text;
use crate::tracker::{ProgressMap, ProgressTracker, ScopedAckIndexer};

verus! {

/// A node of which nothing is known.
pub proof fn law_new_progress(next_idx: u64, ins_size: usize, p: Progress)
    requires
        call_ensures(Progress::new, (next_idx, ins_size), p),
    ensures
        p.matched == 0 && p.next_idx == next_idx && p.state == ProgressState::Probe,
        !p.paused && !p.recent_active && !p.is_witness,
        p.pending_snapshot == 0 && p.pending_request_snapshot == 0,
        p.ins.count == 0 && p.ins.cap == ins_size,
        p.commit_group_id == 0 && p.committed_index == 0,
{
}

/// A new membership has the voters and learners it is given, and is not joint.
pub proof fn law_new_configuration(voters: Vec<u64>, learners: Vec<u64>, c: Configuration, id: u64)
    requires
        call_ensures(Configuration::new, (voters, learners), c),
    ensures
        c.voters.incoming.voters@.contains(id) <==> voters@.contains(id),
        c.learners@.contains(id) <==> learners@.contains(id),
        !c.voters.outgoing.voters@.contains(id),
        !c.learners_next@.contains(id),
        !c.auto_leave,
        c.witnesses@ == seq![0u64, 0],
{
    effects::law_simple_membership(voters@.to_set(), learners@.to_set(), id);
}

/// A record lists each group of members, each member once.
pub proof fn law_to_conf_state(c: &Configuration, state: ConfState, id: u64)
    requires
        call_ensures(Configuration::to_conf_state, (c,), state),
    ensures
        state.voters@.contains(id) <==> c.voters.incoming.voters@.contains(id),
        state.voters_outgoing@.contains(id) <==> c.voters.outgoing.voters@.contains(id),
        state.learners@.contains(id) <==> c.learners@.contains(id),
        state.learners_next@.contains(id) <==> c.learners_next@.contains(id),
        state.voters@.no_duplicates() && state.voters_outgoing@.no_duplicates(),
        state.learners@.no_duplicates() && state.learners_next@.no_duplicates(),
        state.auto_leave == c.auto_leave,
        state.witness == c.witnesses@[0],
        state.witness_outgoing == c.witnesses@[1],
{
    effects::law_conf_state_lists_members(c@, state, id);
}

/// What a membership says of its members.
pub proof fn law_configuration_getters(
    c: &Configuration,
    voters: &JointConfig,
    learners: &HashSet<u64>,
    learners_next: &HashSet<u64>,
    auto_leave: &bool,
)
    requires
        call_ensures(Configuration::voters, (c,), voters),
        call_ensures(Configuration::learners, (c,), learners),
        call_ensures(Configuration::learners_next, (c,), learners_next),
        call_ensures(Configuration::auto_leave, (c,), auto_leave),
    ensures
        voters.incoming.voters@ == c.voters.incoming.voters@,
        voters.outgoing.voters@ == c.voters.outgoing.voters@,
        learners@ == c.learners@,
        learners_next@ == c.learners_next@,
        *auto_leave == c.auto_leave,
{
}

/// The text of a membership shows its voters, those of both halves of a joint one, and then its
/// learners, its next learners and its mark for leaving where it has them.
pub proof fn law_to_string(
    c: &Configuration,
    s: String,
    incoming: Seq<u64>,
    outgoing: Seq<u64>,
    learners: Seq<u64>,
    next: Seq<u64>,
)
    requires
        call_ensures(Configuration::to_string, (c,), s),
        text::lists(incoming, c.voters.incoming.voters@),
        text::lists(outgoing, c.voters.outgoing.voters@),
        text::lists(learners, c.learners@),
        text::lists(next, c.learners_next@),
    ensures
        ({
            let none = Seq::<char>::empty();
            let voters = if outgoing.len() == 0 {
                "voters="@ + text::bracketed(incoming)
            } else {
                "voters="@ + text::bracketed(incoming) + "&&"@ + text::bracketed(outgoing)
            };
            let others = if learners.len() == 0 {
                none
            } else {
                " learners="@ + text::bracketed(learners)
            };
            let coming = if next.len() == 0 {
                none
            } else {
                " learners_next="@ + text::bracketed(next)
            };
            let mark = if c.auto_leave {
                " autoleave"@
            } else {
                none
            };
            s@ == voters + others + coming + mark
        }),
{
    text::law_membership_is_shown_in_full(c@, incoming, outgoing, learners, next);
}

/// Whether there is a witness, and whether it is to receive shortcut replication: where it is not
/// left out.
pub proof fn law_epoch(e: &Epoch, has: bool, replicate: (bool, bool))
    requires
        call_ensures(Epoch::has_witness, (e,), has),
        call_ensures(Epoch::replicate_to_witness, (e,), replicate),
    ensures
        has <==> e.replication_sets@[0].witness != 0 || e.replication_sets@[1].witness != 0,
        replicate.0 <==> e.replication_sets@[0].witness != 0 && e.replication_sets@[0].excluded
            != e.replication_sets@[0].witness,
        replicate.1 <==> e.replication_sets@[1].witness != 0 && e.replication_sets@[1].excluded
            != e.replication_sets@[1].witness,
{
}

/// A node's acknowledgement is its matched index, in its commit group; within a scope only that of
/// nodes in it counts.
pub proof fn law_acked_index(
    progress: &ProgressMap,
    scoped: &ScopedAckIndexer<'_>,
    id: u64,
    r: Option<quorum::Index>,
    s: Option<quorum::Index>,
)
    requires
        r == progress.acks().get(id),
        s == scoped.acks().get(id),
    ensures
        match r {
            Some(a) => progress@.contains_key(id) && a.index == progress@[id].matched && a.group_id
                == progress@[id].commit_group_id,
            None => !progress@.contains_key(id),
        },
        match s {
            Some(a) => {
                &&& scoped.scope@.contains(id) && scoped.indexer@.contains_key(id)
                &&& a.index == scoped.indexer@[id].matched
                &&& a.group_id == scoped.indexer@[id].commit_group_id
            },
            None => !scoped.scope@.contains(id) || !scoped.indexer@.contains_key(id),
        },
{
}

/// A new tracker knows nothing; how much room it has does not matter.
pub proof fn law_new_tracker(
    voters: usize,
    learners: usize,
    max_inflight: usize,
    t: ProgressTracker,
    u: ProgressTracker,
    id: u64,
)
    requires
        call_ensures(ProgressTracker::new, (max_inflight,), t),
        call_ensures(ProgressTracker::with_capacity, (voters, learners, max_inflight), u),
    ensures
        t@ == u@,
        !t.progress@.contains_key(id) && !t.votes@.contains_key(id),
        !t.conf.voters.incoming.voters@.contains(id),
        !t.conf.voters.outgoing.voters@.contains(id),
        !t.conf.learners@.contains(id) && !t.conf.learners_next@.contains(id),
        !t.conf.auto_leave && t.conf.witnesses@ == seq![0u64, 0],
        t.max_inflight == max_inflight && !t.group_commit,
        t.epoch.subterm == 0,
        t.epoch.replication_sets@[0].witness == 0 && t.epoch.replication_sets@[1].witness == 0,
        t.epoch.replication_sets@[0].excluded == 0 && t.epoch.replication_sets@[1].excluded == 0,
        !t.epoch.replication_sets@[0].non_witness_voters@.contains(id),
        !t.epoch.replication_sets@[1].non_witness_voters@.contains(id),
        t.epoch.witness_subterm@ == seq![0u64, 0],
        t.epoch.witness_pending_subterm@ == seq![0u64, 0],
{
    effects::law_fresh_tracker_is_empty(max_inflight, id);
}

/// A node is found where it is tracked.
pub proof fn law_get(t: &ProgressTracker, id: u64, r: Option<&Progress>)
    requires
        call_ensures(ProgressTracker::get, (t, id), r),
    ensures
        r is Some <==> t.progress@.contains_key(id),
        r matches Some(p) ==> *p == t.progress@[id],
{
}

/// What is changed through the reference to a node is changed in the tracker, and nothing else is.
pub proof fn law_get_mut(t: &mut ProgressTracker, id: u64, r: Option<&mut Progress>, other: u64)
    requires
        call_ensures(ProgressTracker::get_mut, (t, id), r),
    ensures
        r is Some <==> old(t).progress@.contains_key(id),
        r matches Some(p) ==> *p == old(t).progress@[id] && final(t).progress@[id] == *final(p),
        final(t).progress@.dom() == old(t).progress@.dom(),
        other != id && old(t).progress@.contains_key(other) ==> final(t).progress@[other]
            == old(t).progress@[other],
        final(t).votes@ == old(t).votes@ && final(t).conf@ == old(t).conf@,
        final(t).epoch@ == old(t).epoch@ && final(t).max_inflight == old(t).max_inflight,
        final(t).group_commit == old(t).group_commit,
{
    assert(final(t).progress@.dom() =~= old(t).progress@.dom());
}

/// References to all nodes, each once: what is changed through one is changed in the tracker, and
/// nothing else is.
pub proof fn law_iter_mut(
    t: &mut ProgressTracker,
    all: Vec<(&u64, &mut Progress)>,
    i: int,
    j: int,
    id: u64,
)
    requires
        call_ensures(ProgressTracker::iter_mut, (t,), all),
    ensures
        0 <= i < all@.len() ==> {
            &&& old(t).progress@.contains_key(*all@[i].0)
            &&& *all@[i].1 == old(t).progress@[*all@[i].0]
            &&& final(t).progress@[*all@[i].0] == *final(all@[i].1)
        },
        0 <= i < j < all@.len() ==> *all@[i].0 != *all@[j].0,
        old(t).progress@.contains_key(id) ==> exists|k: int|
            0 <= k < all@.len() && *(#[trigger] all@[k]).0 == id,
        final(t).progress@.dom() == old(t).progress@.dom(),
        final(t).votes@ == old(t).votes@ && final(t).conf@ == old(t).conf@,
        final(t).epoch@ == old(t).epoch@ && final(t).max_inflight == old(t).max_inflight,
        final(t).group_commit == old(t).group_commit,
{
}

/// A copy shows the same as what it was made from.
pub proof fn law_clone(
    t: &ProgressTracker,
    u: ProgressTracker,
    c: &Configuration,
    d: Configuration,
    e: &Epoch,
    f: Epoch,
)
    requires
        call_ensures(ProgressTracker::clone, (t,), u),
        call_ensures(Configuration::clone, (c,), d),
        call_ensures(Epoch::clone, (e,), f),
    ensures
        u.progress@ == t.progress@ && u.votes@ == t.votes@ && u.conf@ == t.conf@,
        u.epoch@ == t.epoch@ && u.max_inflight == t.max_inflight && u.group_commit
            == t.group_commit,
        d.voters.incoming.voters@ == c.voters.incoming.voters@,
        d.voters.outgoing.voters@ == c.voters.outgoing.voters@,
        d.learners@ == c.learners@ && d.learners_next@ == c.learners_next@,
        d.auto_leave == c.auto_leave && d.witnesses@ == c.witnesses@,
        f.subterm == e.subterm,
        f.replication_sets@[0].witness == e.replication_sets@[0].witness,
        f.replication_sets@[1].witness == e.replication_sets@[1].witness,
        f.replication_sets@[0].excluded == e.replication_sets@[0].excluded,
        f.replication_sets@[1].excluded == e.replication_sets@[1].excluded,
        f.replication_sets@[0].non_witness_voters@ == e.replication_sets@[0].non_witness_voters@,
        f.replication_sets@[1].non_witness_voters@ == e.replication_sets@[1].non_witness_voters@,
        f.witness_subterm@ == e.witness_subterm@,
        f.witness_pending_subterm@ == e.witness_pending_subterm@,
{
    effects::law_views_show_fields(*t, *c, *e, e.replication_sets@[0]);
    effects::law_views_show_fields(u, d, f, f.replication_sets@[0]);
    effects::law_views_show_fields(u, d, f, f.replication_sets@[1]);
    effects::law_views_show_fields(u, d, f, e.replication_sets@[1]);
}

/// What a tracker says of itself.
pub proof fn law_getters(
    t: &ProgressTracker,
    conf: &Configuration,
    votes: &HashMap<u64, bool>,
    max_inflight: &usize,
    progress: &ProgressMap,
    group_commit: bool,
    singleton: bool,
)
    requires
        call_ensures(ProgressTracker::conf, (t,), conf),
        call_ensures(ProgressTracker::votes, (t,), votes),
        call_ensures(ProgressTracker::max_inflight, (t,), max_inflight),
        call_ensures(ProgressTracker::progress, (t,), progress),
        call_ensures(ProgressTracker::group_commit, (t,), group_commit),
        call_ensures(ProgressTracker::is_singleton, (t,), singleton),
    ensures
        conf@ == t.conf@,
        votes@ == t.votes@,
        *max_inflight == t.max_inflight,
        progress@ == t.progress@,
        group_commit == t.group_commit,
        singleton <==> t.conf.voters.outgoing.voters@.len() == 0
            && t.conf.voters.incoming.voters@.len() == 1,
{
    sets::lemma_hash_set_finite(&t.conf.voters.outgoing.voters);
    if t.conf.voters.outgoing.voters@.len() == 0 {
        t.conf.voters.outgoing.voters@.lemma_len0_is_empty();
    }
}

/// Group commit is switched on or off, and nothing else changes.
pub proof fn law_enable_group_commit(t: &mut ProgressTracker, enable: bool)
    requires
        call_ensures(ProgressTracker::enable_group_commit, (t, enable), ()),
    ensures
        final(t).group_commit == enable,
        final(t).progress@ == old(t).progress@ && final(t).votes@ == old(t).votes@,
        final(t).conf@ == old(t).conf@ && final(t).epoch@ == old(t).epoch@,
        final(t).max_inflight == old(t).max_inflight,
{
}

/// Clearing forgets the nodes, the votes and the membership, and nothing else.
pub proof fn law_clear(t: &mut ProgressTracker, id: u64)
    requires
        call_ensures(ProgressTracker::clear, (t,), ()),
    ensures
        !final(t).progress@.contains_key(id) && !final(t).votes@.contains_key(id),
        !final(t).conf.voters.incoming.voters@.contains(id),
        !final(t).conf.voters.outgoing.voters@.contains(id),
        !final(t).conf.learners@.contains(id) && !final(t).conf.learners_next@.contains(id),
        !final(t).conf.auto_leave && final(t).conf.witnesses@ == seq![0u64, 0],
        final(t).max_inflight == old(t).max_inflight,
        final(t).group_commit == old(t).group_commit,
        final(t).epoch@ == old(t).epoch@,
{
    effects::law_simple_membership(Set::empty(), Set::empty(), id);
    assert(final(t)@.conf == final(t).conf@);
}

/// The first vote of a node is recorded, whatever it is; a later one changes nothing.
pub proof fn law_record_vote(t: &mut ProgressTracker, id: u64, vote: bool, other: u64)
    requires
        call_ensures(ProgressTracker::record_vote, (t, id, vote), ()),
    ensures
        final(t).votes@.contains_key(id),
        final(t).votes@[id] == if old(t).votes@.contains_key(id) {
            old(t).votes@[id]
        } else {
            vote
        },
        other != id ==> {
            &&& final(t).votes@.contains_key(other) <==> old(t).votes@.contains_key(other)
            &&& old(t).votes@.contains_key(other) ==> final(t).votes@[other]
                == old(t).votes@[other]
        },
        final(t).progress@ == old(t).progress@ && final(t).conf@ == old(t).conf@,
        final(t).epoch@ == old(t).epoch@ && final(t).max_inflight == old(t).max_inflight,
        final(t).group_commit == old(t).group_commit,
{
}

/// A second vote of a node does not replace the first.
pub proof fn law_first_vote_stays(
    t: &mut ProgressTracker,
    u: &mut ProgressTracker,
    id: u64,
    first: bool,
    second: bool,
)
    requires
        call_ensures(ProgressTracker::record_vote, (t, id, first), ()),
        call_ensures(ProgressTracker::record_vote, (u, id, second), ()),
        *old(u) == *final(t),
    ensures
        final(u).votes@[id] == final(t).votes@[id],
        !old(t).votes@.contains_key(id) ==> final(u).votes@[id] == first,
{
}

/// A new round forgets all votes and nothing else.
pub proof fn law_reset_votes(t: &mut ProgressTracker, id: u64)
    requires
        call_ensures(ProgressTracker::reset_votes, (t,), ()),
    ensures
        !final(t).votes@.contains_key(id),
        final(t).progress@ == old(t).progress@ && final(t).conf@ == old(t).conf@,
        final(t).epoch@ == old(t).epoch@ && final(t).max_inflight == old(t).max_inflight,
        final(t).group_commit == old(t).group_commit,
{
}

/// A tally counts the voters of either half who voted in favour and who declined; the outcome and
/// what each half needs are those of the membership.
pub proof fn law_tally(
    t: &ProgressTracker,
    r: (usize, usize, VoteResult),
    d: (usize, usize, VoteResult, [usize; 2]),
    outcome: VoteResult,
    joint: (VoteResult, [usize; 2]),
    yes: Set<u64>,
    no: Set<u64>,
)
    requires
        call_ensures(ProgressTracker::tally_votes, (t,), r),
        call_ensures(ProgressTracker::tally_votes_with_diff, (t,), d),
        call_ensures(ProgressTracker::vote_result, (t, &t.votes), outcome),
        call_ensures(JointConfig::vote_result_with_diff, (&t.conf.voters, &t.votes), joint),
        forall|id: u64| #[trigger]
            yes.contains(id) <==> (t.conf.voters.incoming.voters@.contains(id)
                || t.conf.voters.outgoing.voters@.contains(id)) && t.votes@.contains_key(id)
                && t.votes@[id],
        forall|id: u64| #[trigger]
            no.contains(id) <==> (t.conf.voters.incoming.voters@.contains(id)
                || t.conf.voters.outgoing.voters@.contains(id)) && t.votes@.contains_key(id)
                && !t.votes@[id],
    ensures
        r.0 == yes.len() && d.0 == yes.len(),
        r.1 == no.len() && d.1 == no.len(),
        r.2 == outcome && d.2 == outcome && outcome == joint.0,
        d.3@[0] == joint.1@[0] && d.3@[1] == joint.1@[1],
{
    let ids = t@.conf.voters.ids();
    assert(quorum::granted(ids, t.votes@) =~= yes);
    assert(quorum::rejected(ids, t.votes@) =~= no);
}

/// The outcome of given votes is that of the membership.
pub proof fn law_vote_result(
    t: &ProgressTracker,
    votes: &HashMap<u64, bool>,
    r: VoteResult,
    joint: VoteResult,
)
    requires
        call_ensures(ProgressTracker::vote_result, (t, votes), r),
        call_ensures(JointConfig::vote_result, (&t.conf.voters, votes), joint),
    ensures
        r == joint,
{
}

/// Nodes form a quorum where they are more than half of the voters of each half that has any.
pub proof fn law_has_quorum(t: &ProgressTracker, nodes: &HashSet<u64>, b: bool)
    requires
        call_ensures(ProgressTracker::has_quorum, (t, nodes), b),
    ensures
        ({
            let incoming = t.conf.voters.incoming.voters@;
            let outgoing = t.conf.voters.outgoing.voters@;
            b <==> {
                &&& incoming.len() == 0 || 2 * incoming.intersect(nodes@).len() > incoming.len()
                &&& outgoing.len() == 0 || 2 * outgoing.intersect(nodes@).len() > outgoing.len()
            }
        }),
{
    sets::lemma_hash_set_finite(&t.conf.voters.incoming.voters);
    sets::lemma_hash_set_finite(&t.conf.voters.outgoing.voters);
    quorum::effects::law_quorum_by_counting(t@.conf.voters, nodes@);
}

/// A check finds a quorum where the tracked nodes that are the checking one, witnesses or were
/// heard of are one. Of each node it changes only whether it was heard of: the checking node and
/// the witnesses were, all others must be heard of anew.
pub proof fn law_quorum_recently_active(
    t: &mut ProgressTracker,
    perspective_of: u64,
    b: bool,
    active: Set<u64>,
    id: u64,
)
    requires
        call_ensures(ProgressTracker::quorum_recently_active, (t, perspective_of), b),
        forall|n: u64| #[trigger]
            active.contains(n) <==> old(t).progress@.contains_key(n) && (n == perspective_of
                || old(t).progress@[n].is_witness || old(t).progress@[n].recent_active),
    ensures
        ({
            let incoming = old(t).conf.voters.incoming.voters@;
            let outgoing = old(t).conf.voters.outgoing.voters@;
            b <==> {
                &&& incoming.len() == 0 || 2 * incoming.intersect(active).len() > incoming.len()
                &&& outgoing.len() == 0 || 2 * outgoing.intersect(active).len() > outgoing.len()
            }
        }),
        final(t).progress@.contains_key(id) <==> old(t).progress@.contains_key(id),
        old(t).progress@.contains_key(id) ==> final(t).progress@[id] == (Progress {
            recent_active: id == perspective_of || old(t).progress@[id].is_witness,
            ..old(t).progress@[id]
        }),
        final(t).votes@ == old(t).votes@ && final(t).conf@ == old(t).conf@,
        final(t).epoch@ == old(t).epoch@ && final(t).max_inflight == old(t).max_inflight,
        final(t).group_commit == old(t).group_commit,
{
    sets::lemma_hash_set_finite(&old(t).conf.voters.incoming.voters);
    sets::lemma_hash_set_finite(&old(t).conf.voters.outgoing.voters);
    assert(tracker::active_nodes(old(t).progress@, perspective_of) =~= active);
    quorum::effects::law_quorum_by_counting(old(t)@.conf.voters, active);
}

/// Applying a membership takes it over. A node whose last change is to be added is tracked, as
/// active, as one to probe from `next_idx` on, and as a witness where the membership says so; one
/// whose last change is to be removed is not tracked; one that no change names stays as it was.
pub proof fn law_apply_conf(
    t: &mut ProgressTracker,
    conf: Configuration,
    changes: MapChange,
    next_idx: u64,
    i: int,
    id: u64,
)
    requires
        call_ensures(ProgressTracker::apply_conf, (t, conf, changes, next_idx), ()),
    ensures
        final(t).conf@ == conf@,
        0 <= i < changes@.len() && (forall|j: int|
            i < j < changes@.len() ==> (#[trigger] changes@[j]).0 != changes@[i].0) ==> ({
            let node = changes@[i].0;
            match changes@[i].1 {
                MapChangeType::Add => {
                    &&& final(t).progress@.contains_key(node)
                    &&& final(t).progress@[node].recent_active
                    &&& final(t).progress@[node].matched == 0
                    &&& final(t).progress@[node].next_idx == next_idx
                    &&& final(t).progress@[node].state == ProgressState::Probe
                    &&& !final(t).progress@[node].paused
                    &&& final(t).progress@[node].pending_snapshot == 0
                    &&& final(t).progress@[node].pending_request_snapshot == 0
                    &&& final(t).progress@[node].ins.count == 0
                    &&& final(t).progress@[node].ins.cap == old(t).max_inflight
                    &&& final(t).progress@[node].commit_group_id == 0
                    &&& final(t).progress@[node].committed_index == 0
                    &&& final(t).progress@[node].is_witness <==> node == conf.witnesses@[0] || node
                        == conf.witnesses@[1]
                },
                MapChangeType::Remove => !final(t).progress@.contains_key(node),
            }
        }),
        (forall|j: int| 0 <= j < changes@.len() ==> (#[trigger] changes@[j]).0 != id) ==> {
            &&& final(t).progress@.contains_key(id) <==> old(t).progress@.contains_key(id)
            &&& old(t).progress@.contains_key(id) ==> final(t).progress@[id]
                == old(t).progress@[id]
        },
        final(t).votes@ == old(t).votes@ && final(t).epoch@ == old(t).epoch@,
        final(t).max_inflight == old(t).max_inflight,
        final(t).group_commit == old(t).group_commit,
{
    let before = old(t).progress@;
    let witnesses = conf@.witnesses;
    let max = old(t).max_inflight;
    if 0 <= i < changes@.len() && (forall|j: int|
        i < j < changes@.len() ==> (#[trigger] changes@[j]).0 != changes@[i].0) {
        match changes@[i].1 {
            MapChangeType::Add => {
                effects::law_added_node_is_active(before, changes@, witnesses, next_idx, max, i);
            },
            MapChangeType::Remove => {
                effects::law_removed_node_is_gone(before, changes@, witnesses, next_idx, max, i);
            },
        }
    }
    if forall|j: int| 0 <= j < changes@.len() ==> (#[trigger] changes@[j]).0 != id {
        laws::law_unnamed_node_is_kept(before, changes@, witnesses, next_idx, max, id);
    }
}

/// Right after all voters were added, a check finds a quorum, from any perspective.
pub proof fn law_added_voters_are_active(
    t: &mut ProgressTracker,
    conf: Configuration,
    changes: MapChange,
    next_idx: u64,
    u: &mut ProgressTracker,
    perspective_of: u64,
    b: bool,
)
    requires
        call_ensures(ProgressTracker::apply_conf, (t, conf, changes, next_idx), ()),
        call_ensures(ProgressTracker::quorum_recently_active, (u, perspective_of), b),
        *old(u) == *final(t),
        forall|id: u64|
            #![trigger conf.voters.incoming.voters@.contains(id)]
            #![trigger conf.voters.outgoing.voters@.contains(id)]
            conf.voters.incoming.voters@.contains(id) || conf.voters.outgoing.voters@.contains(id)
                ==> exists|i: int|
                0 <= i < changes@.len() && #[trigger] changes@[i] == (id, MapChangeType::Add)
                    && forall|j: int| i < j < changes@.len() ==> (#[trigger] changes@[j]).0 != id,
    ensures
        b,
{
    sets::lemma_hash_set_finite(&conf.voters.incoming.voters);
    sets::lemma_hash_set_finite(&conf.voters.outgoing.voters);
    effects::law_added_voters_are_a_quorum(
        conf@.voters,
        old(t).progress@,
        changes@,
        conf@.witnesses,
        next_idx,
        old(t).max_inflight,
        perspective_of,
    );
}

/// The committed index is that of the membership over the matched indexes of the nodes, with or
/// without group commit as it is switched, and nothing changes.
pub proof fn law_maximal_committed_index(
    t: &mut ProgressTracker,
    r: (u64, bool),
    joint: (u64, bool),
)
    requires
        call_ensures(ProgressTracker::maximal_committed_index, (t,), r),
        call_ensures(
            JointConfig::committed_index::<ProgressMap>,
            (&old(t).conf.voters, old(t).group_commit, &old(t).progress),
            joint,
        ),
    ensures
        r == joint,
        *final(t) == *old(t),
{
}

/// A reset starts the replication sets of the membership, in subterm 0 or the next one, with no
/// witness contacted: all voters but the witness, which is left out where two others are there, and
/// is a member where they are not.
pub proof fn law_reset_replication_set(
    t: &mut ProgressTracker,
    reset_subterm: bool,
    half: int,
    voters: Set<u64>,
    a: u64,
    b: u64,
    id: u64,
)
    requires
        call_ensures(ProgressTracker::reset_replication_set, (t, reset_subterm), ()),
        reset_subterm || old(t).epoch.subterm < u64::MAX,
        half == 0 || half == 1,
        half == 0 ==> voters == old(t).conf.voters.incoming.voters@,
        half == 1 ==> voters == old(t).conf.voters.outgoing.voters@,
    ensures
        final(t).epoch.subterm == if reset_subterm {
            0
        } else {
            old(t).epoch.subterm + 1
        },
        final(t).epoch.witness_subterm@ == seq![0u64, 0],
        final(t).epoch.witness_pending_subterm@ == seq![0u64, 0],
        ({
            let witness = old(t).conf.witnesses@[half];
            let set = final(t).epoch.replication_sets@[half];
            let members = set.non_witness_voters@;
            let two = voters.contains(a) && voters.contains(b) && a != b && a != witness && b
                != witness;
            let fewer = forall|x: u64, y: u64| #[trigger]
                voters.contains(x) && #[trigger] voters.contains(y) && x != witness && y != witness
                    ==> x == y;
            &&& set.witness == witness
            &&& witness == 0 ==> set.excluded == 0
            &&& witness != 0 && two ==> set.excluded == witness
            &&& witness != 0 && fewer ==> set.excluded == 0
            &&& id != witness ==> (members.contains(id) <==> voters.contains(id))
            &&& witness == 0 || two ==> !members.contains(witness)
            &&& witness != 0 && fewer ==> members.contains(witness)
        }),
        final(t).progress@ == old(t).progress@ && final(t).conf@ == old(t).conf@,
        final(t).votes@ == old(t).votes@ && final(t).max_inflight == old(t).max_inflight,
        final(t).group_commit == old(t).group_commit,
{
    sets::lemma_hash_set_finite(&old(t).conf.voters.incoming.voters);
    sets::lemma_hash_set_finite(&old(t).conf.voters.outgoing.voters);
    let conf = old(t)@.conf;
    effects::law_initial_set_by_node(conf.voters.incoming, conf.witnesses[0], a, b, id);
    effects::law_initial_set_by_node(conf.voters.outgoing, conf.witnesses[1], a, b, id);
    assert(final(t)@.epoch == final(t).epoch@);
}

/// An adjustment, with or without a leader that must stay, adjusts both halves. Where either
/// changes, it says so, and the next subterm starts, with no witness contacted; a half that does
/// not change is kept. Where neither does, it says so, and the epoch stays. Nothing else changes.
pub proof fn law_adjustment(
    t: &mut ProgressTracker,
    leader: Option<u64>,
    changed: bool,
)
    requires
        match leader {
            Some(id) => call_ensures(
                ProgressTracker::change_replication_set_led_by,
                (t, id),
                changed,
            ),
            None => call_ensures(ProgressTracker::change_replication_set, (t,), changed),
        },
        old(t).epoch.subterm < u64::MAX,
    ensures
        ({
            let progress = old(t).progress@;
            let incoming = old(t).epoch.replication_sets@[0]@;
            let outgoing = old(t).epoch.replication_sets@[1]@;
            let next_incoming = final(t).epoch.replication_sets@[0]@;
            let next_outgoing = final(t).epoch.replication_sets@[1]@;
            let incoming_kept = next_incoming == incoming && incoming.adjusts_to(
                progress,
                leader,
                None,
            );
            let outgoing_kept = next_outgoing == outgoing && outgoing.adjusts_to(
                progress,
                leader,
                None,
            );
            let incoming_moved = incoming.adjusts_to(progress, leader, Some(next_incoming));
            let outgoing_moved = outgoing.adjusts_to(progress, leader, Some(next_outgoing));
            &&& changed ==> {
                ||| incoming_moved && outgoing_moved
                ||| incoming_moved && outgoing_kept
                ||| incoming_kept && outgoing_moved
            }
            &&& !changed ==> incoming_kept && outgoing_kept
        }),
        changed ==> {
            &&& final(t).epoch.subterm == old(t).epoch.subterm + 1
            &&& final(t).epoch.witness_subterm@ == seq![0u64, 0]
            &&& final(t).epoch.witness_pending_subterm@ == seq![0u64, 0]
        },
        !changed ==> {
            &&& final(t).epoch.subterm == old(t).epoch.subterm
            &&& final(t).epoch.witness_subterm@ == old(t).epoch.witness_subterm@
            &&& final(t).epoch.witness_pending_subterm@ == old(t).epoch.witness_pending_subterm@
        },
        final(t).progress@ == old(t).progress@ && final(t).conf@ == old(t).conf@,
        final(t).votes@ == old(t).votes@ && final(t).max_inflight == old(t).max_inflight,
        final(t).group_commit == old(t).group_commit,
{
    let halves = effects::law_epoch_adjusts_both_halves(
        old(t).epoch@,
        old(t).progress@,
        leader,
        changed,
        final(t).epoch@,
    );
}

/// In a half whose witness is left out, a member that is tracked, not heard of and not the leader
/// makes room for the witness, whatever else is known of it.
pub proof fn law_lost_member_makes_room(
    t: &mut ProgressTracker,
    leader: Option<u64>,
    changed: bool,
    half: int,
    lost: u64,
)
    requires
        match leader {
            Some(id) => call_ensures(
                ProgressTracker::change_replication_set_led_by,
                (t, id),
                changed,
            ),
            None => call_ensures(ProgressTracker::change_replication_set, (t,), changed),
        },
        old(t).epoch.subterm < u64::MAX,
        half == 0 || half == 1,
        ({
            let set = old(t).epoch.replication_sets@[half];
            &&& set.witness != 0
            &&& set.excluded == set.witness
            &&& !set.non_witness_voters@.contains(set.witness)
            &&& set.non_witness_voters@.contains(lost)
        }),
        old(t).progress@.contains_key(lost),
        !old(t).progress@[lost].recent_active,
        leader != Some(lost),
    ensures
        changed,
        final(t).epoch.subterm == old(t).epoch.subterm + 1,
        ({
            let set = old(t).epoch.replication_sets@[half];
            let next = final(t).epoch.replication_sets@[half];
            &&& set.non_witness_voters@.contains(next.excluded)
            &&& old(t).progress@.contains_key(next.excluded)
            &&& !old(t).progress@[next.excluded].recent_active
            &&& leader != Some(next.excluded)
            &&& next.witness == set.witness
            &&& next.excluded != next.witness
            &&& next.non_witness_voters@ == set.non_witness_voters@.remove(next.excluded).insert(
                set.witness,
            )
        }),
{
    law_adjustment(t, leader, changed);
    let progress = old(t).progress@;
    let set = old(t).epoch.replication_sets@[half]@;
    let next = final(t).epoch.replication_sets@[half]@;
    if set.adjusts_to(progress, leader, None) {
        effects::law_lost_member_makes_room(set, progress, leader, lost, None);
    }
    effects::law_lost_member_makes_room(set, progress, leader, lost, Some(next));
}

/// A node that is left out of a half and is heard of again, the witness or a voter to which appends
/// are streamed, takes the place of a member or witness that is tracked, not heard of and not the
/// leader; or, where there is none and it is not the witness itself, that of the witness.
pub proof fn law_recovered_node_comes_back(
    t: &mut ProgressTracker,
    leader: Option<u64>,
    changed: bool,
    half: int,
    inactive: Option<u64>,
)
    requires
        match leader {
            Some(id) => call_ensures(
                ProgressTracker::change_replication_set_led_by,
                (t, id),
                changed,
            ),
            None => call_ensures(ProgressTracker::change_replication_set, (t,), changed),
        },
        old(t).epoch.subterm < u64::MAX,
        !old(t).progress@.contains_key(0),
        half == 0 || half == 1,
        ({
            let set = old(t).epoch.replication_sets@[half];
            let progress = old(t).progress@;
            &&& set.excluded != 0
            &&& progress.contains_key(set.excluded)
            &&& progress[set.excluded].recent_active
            &&& set.excluded == set.witness || progress[set.excluded].state
                == ProgressState::Replicate
            &&& match inactive {
                Some(id) => (set.non_witness_voters@.contains(id) || id == set.witness)
                    && progress.contains_key(id) && !progress[id].recent_active && leader != Some(
                    id,
                ),
                None => set.excluded != set.witness && forall|id: u64| #[trigger]
                    progress.contains_key(id) && (set.non_witness_voters@.contains(id) || id
                        == set.witness) ==> progress[id].recent_active || leader == Some(id),
            }
        }),
    ensures
        changed,
        ({
            let set = old(t).epoch.replication_sets@[half];
            let next = final(t).epoch.replication_sets@[half];
            let progress = old(t).progress@;
            &&& next.witness == set.witness
            &&& next.non_witness_voters@ == set.non_witness_voters@.remove(next.excluded).insert(
                set.excluded,
            )
            &&& inactive is None ==> next.excluded == set.witness
            &&& inactive is Some ==> {
                &&& set.non_witness_voters@.contains(next.excluded) || next.excluded == set.witness
                &&& progress.contains_key(next.excluded)
                &&& !progress[next.excluded].recent_active
                &&& leader != Some(next.excluded)
            }
        }),
{
    law_adjustment(t, leader, changed);
    let progress = old(t).progress@;
    let set = old(t).epoch.replication_sets@[half]@;
    let next = final(t).epoch.replication_sets@[half]@;
    let kept = set.adjusts_to(progress, leader, None);
    match inactive {
        Some(id) => {
            if kept {
                effects::law_recovered_node_replaces_inactive(set, progress, leader, id, None);
            }
            effects::law_recovered_node_replaces_inactive(set, progress, leader, id, Some(next));
        },
        None => {
            if kept {
                effects::law_recovered_voter_replaces_witness(set, progress, leader, None);
            }
            effects::law_recovered_voter_replaces_witness(set, progress, leader, Some(next));
        },
    }
}

/// A half stays where nobody can come back and nobody is to make room for the witness. A change
/// that is reported is then one of the other half; where none is, the subterm goes on.
pub proof fn law_half_stays_otherwise(
    t: &mut ProgressTracker,
    leader: Option<u64>,
    changed: bool,
    half: int,
)
    requires
        match leader {
            Some(id) => call_ensures(
                ProgressTracker::change_replication_set_led_by,
                (t, id),
                changed,
            ),
            None => call_ensures(ProgressTracker::change_replication_set, (t,), changed),
        },
        old(t).epoch.subterm < u64::MAX,
        half == 0 || half == 1,
        ({
            let set = old(t).epoch.replication_sets@[half];
            let progress = old(t).progress@;
            let none_missing = forall|id: u64| #[trigger]
                progress.contains_key(id) && set.non_witness_voters@.contains(id)
                    ==> progress[id].recent_active || leader == Some(id);
            let cannot_return = set.excluded == 0 || !progress.contains_key(set.excluded)
                || !progress[set.excluded].recent_active || (set.excluded != set.witness
                && progress[set.excluded].state != ProgressState::Replicate);
            &&& cannot_return || (set.excluded == set.witness && none_missing)
            &&& set.witness == 0 || set.non_witness_voters@.contains(set.witness) || none_missing
        }),
    ensures
        ({
            let set = old(t).epoch.replication_sets@[half];
            let next = final(t).epoch.replication_sets@[half];
            &&& next.witness == set.witness
            &&& next.excluded == set.excluded
            &&& next.non_witness_voters@ == set.non_witness_voters@
        }),
        !changed ==> final(t).epoch.subterm == old(t).epoch.subterm,
        changed ==> old(t).epoch.replication_sets@[1 - half]@.adjusts_to(
            old(t).progress@,
            leader,
            Some(final(t).epoch.replication_sets@[1 - half]@),
        ),
{
    law_adjustment(t, leader, changed);
    let progress = old(t).progress@;
    let set = old(t).epoch.replication_sets@[half]@;
    let next = final(t).epoch.replication_sets@[half]@;
    if set.adjusts_to(progress, leader, Some(next)) {
        effects::law_set_stays_otherwise(set, progress, leader, Some(next));
    }
}

/// An index is returned for exactly those witnesses that are not left out of their half. It is at
/// least as great as any that lacks at most one acknowledgement for more than half of the voters,
/// counting voters in the replication set alone.
pub proof fn law_one_less_than_quorum(
    t: &ProgressTracker,
    r: HashMap<u64, u64>,
    id: u64,
    backers: Set<u64>,
    index: u64,
)
    requires
        call_ensures(ProgressTracker::one_less_than_quorum_in_replication_set, (t,), r),
        forall|n: u64| #[trigger]
            backers.contains(n) ==> t.progress@.contains_key(n) && t.progress@[n].matched >= index,
    ensures
        ({
            let i = t.epoch.replication_sets@[0];
            let o = t.epoch.replication_sets@[1];
            let incoming = i.witness != 0 && i.excluded != i.witness;
            let outgoing = o.witness != 0 && o.excluded != o.witness;
            &&& r@.contains_key(id) <==> (incoming && id == i.witness) || (outgoing && id
                == o.witness)
            &&& outgoing && backers.subset_of(t.conf.voters.outgoing.voters@) && backers.subset_of(
                o.non_witness_voters@,
            ) && 2 * (backers.len() + 1) > t.conf.voters.outgoing.voters@.len() ==> r@[o.witness]
                >= index
            &&& incoming && !(outgoing && o.witness == i.witness) && backers.subset_of(
                t.conf.voters.incoming.voters@,
            ) && backers.subset_of(i.non_witness_voters@) && 2 * (backers.len() + 1)
                > t.conf.voters.incoming.voters@.len() ==> r@[i.witness] >= index
        }),
{
    sets::lemma_hash_set_finite(&t.conf.voters.incoming.voters);
    sets::lemma_hash_set_finite(&t.conf.voters.outgoing.voters);
    effects::law_shortcut_for_each_witness(t@, id);
    effects::law_shortcut_index_is_greatest(t@, backers, index);
}

/// The index that is returned for a witness, where it is not 0, lacks at most one acknowledgement
/// for more than half of the voters, counting voters in the replication set alone. Where both
/// halves have the same witness, that of the outgoing half is returned.
pub proof fn law_one_less_than_quorum_lacks_one(
    t: &ProgressTracker,
    r: HashMap<u64, u64>,
    half: int,
    voters: Set<u64>,
) -> (backers: Set<u64>)
    requires
        call_ensures(ProgressTracker::one_less_than_quorum_in_replication_set, (t,), r),
        half == 0 || half == 1,
        half == 0 ==> voters == t.conf.voters.incoming.voters@,
        half == 1 ==> voters == t.conf.voters.outgoing.voters@,
        ({
            let set = t.epoch.replication_sets@[half];
            let other = t.epoch.replication_sets@[1];
            &&& set.witness != 0
            &&& set.excluded != set.witness
            &&& half == 1 || other.witness != set.witness || other.excluded == other.witness
            &&& r@[set.witness] > 0
        }),
    ensures
        ({
            let set = t.epoch.replication_sets@[half];
            &&& backers.subset_of(voters)
            &&& backers.subset_of(set.non_witness_voters@)
            &&& 2 * (backers.len() + 1) > voters.len()
            &&& forall|n: u64| #[trigger]
                backers.contains(n) ==> t.progress@.contains_key(n) && t.progress@[n].matched
                    >= r@[set.witness]
        }),
{
    sets::lemma_hash_set_finite(&t.conf.voters.incoming.voters);
    sets::lemma_hash_set_finite(&t.conf.voters.outgoing.voters);
    if half == 0 {
        effects::law_incoming_shortcut_index_lacks_one(t@)
    } else {
        effects::law_outgoing_shortcut_index_lacks_one(t@)
    }
}

/// Two trackers with the same voters, the same replication sets and the same matched indexes of
/// their members return the same indexes: nobody else's progress counts.
pub proof fn law_one_less_than_quorum_of_members_only(
    t: &ProgressTracker,
    u: &ProgressTracker,
    r: HashMap<u64, u64>,
    s: HashMap<u64, u64>,
)
    requires
        call_ensures(ProgressTracker::one_less_than_quorum_in_replication_set, (t,), r),
        call_ensures(ProgressTracker::one_less_than_quorum_in_replication_set, (u,), s),
        t.conf.voters@ == u.conf.voters@,
        t.epoch.replication_sets@[0]@ == u.epoch.replication_sets@[0]@,
        t.epoch.replication_sets@[1]@ == u.epoch.replication_sets@[1]@,
        forall|id: u64|
            t.epoch.replication_sets@[0].non_witness_voters@.contains(id)
                || t.epoch.replication_sets@[1].non_witness_voters@.contains(id) ==> {
                &&& #[trigger] t.progress@.contains_key(id) <==> u.progress@.contains_key(id)
                &&& t.progress@.contains_key(id) ==> t.progress@[id].matched
                    == u.progress@[id].matched
            },
    ensures
        r@ == s@,
{
    sets::lemma_hash_set_finite(&t.conf.voters.incoming.voters);
    sets::lemma_hash_set_finite(&t.conf.voters.outgoing.voters);
    effects::law_shortcut_depends_on_members_only(t@, u@);
}

}
