//! Witnesses in a cluster: records, membership, and the replication sets of the leader.
use std::collections::HashSet;

use raft_witness::confchange::{MapChange, MapChangeType};
use raft_witness::eraftpb::{ConfState, Entry, MessageType, WitnessHardState, WitnessMessage};
use raft_witness::quorum::MajorityConfig;
use raft_witness::tracker::{Configuration, ProgressState, ProgressTracker};
use raft_witness::witness::{Witness, WitnessResponse};

const A: u64 = 1;
const B: u64 = 2;
const W1: u64 = 3;
const W2: u64 = 4;

fn set_of(ids: &[u64]) -> HashSet<u64> {
    ids.iter().copied().collect()
}

/// The tracker of a new leader of the given voters.
fn make_leader(voters: Vec<u64>, witness: u64) -> ProgressTracker {
    let mut tracker = ProgressTracker::new(256);
    let changes: MapChange = voters.iter().map(|&id| (id, MapChangeType::Add)).collect();
    let mut conf = Configuration::new(voters, vec![]);
    conf.witnesses[0] = witness;
    tracker.apply_conf(conf, changes, 1);
    tracker.reset_replication_set(true);
    for (_, pr) in tracker.iter_mut() {
        pr.recent_active = false;
    }
    tracker.get_mut(1).unwrap().state = ProgressState::Replicate;
    tracker
}

/// Enters the joint configuration with the given incoming half, from the current one.
fn enter_joint(tracker: &mut ProgressTracker, incoming: Vec<u64>, witness: u64, added: u64) {
    let mut conf = Configuration::new(incoming, vec![]);
    conf.voters.outgoing = MajorityConfig::new(tracker.conf().voters().incoming.ids().clone());
    conf.witnesses = [witness, tracker.conf().witnesses[0]];
    tracker.apply_conf(conf, vec![(added, MapChangeType::Add)], 1);
    tracker.reset_replication_set(false);
}

#[test]
fn test_entry_has_subterm_field() {
    let mut entry = Entry::default();
    entry.subterm = 5;
    assert_eq!(entry.subterm, 5);
    assert_eq!(Entry::default().subterm, 0);
}

#[test]
fn test_witness_message_proto() {
    let mut msg = WitnessMessage::default();
    msg.from = 1;
    msg.to = 3;
    msg.term = 2;
    msg.msg_type = MessageType::MsgAppend;
    msg.last_log_index = 10;
    msg.last_log_term = 2;
    msg.last_log_subterm = 3;
    msg.replication_set_incoming = vec![1, 2];
    msg.vote_ids = vec![1, 2];
    msg.vote_vals = vec![true, true];

    assert_eq!(msg.from, 1);
    assert_eq!(msg.to, 3);
    assert_eq!(msg.msg_type, MessageType::MsgAppend);
    assert_eq!(msg.last_log_index, 10);
    assert_eq!(msg.last_log_subterm, 3);
}

#[test]
fn test_witness_hard_state_proto() {
    let mut whs = WitnessHardState::default();
    whs.last_log_index = 100;
    whs.last_log_term = 5;
    whs.last_log_subterm = 3;
    whs.lead = 1;
    whs.replication_set = vec![1, 2];

    assert_eq!(whs.last_log_index, 100);
    assert_eq!(whs.last_log_subterm, 3);
    assert_eq!(whs.lead, 1);
    assert_eq!(whs.replication_set, &[1, 2]);
}

#[test]
fn test_conf_state_witness_fields() {
    let mut cs = ConfState::default();
    cs.voters = vec![1, 2, 3];
    cs.witness = 3;

    assert_eq!(cs.voters, &[1, 2, 3]);
    assert_eq!(cs.witness, 3);
    assert_eq!(cs.witness_outgoing, 0);
}

#[test]
fn test_witness_config_initialization() {
    let tracker = make_leader(vec![1, 2, 3], 3);
    assert_eq!(tracker.conf().witnesses, [3, 0]);

    let epoch = &tracker.epoch;
    assert_eq!(epoch.replication_sets[0].witness, 3);
    assert_eq!(epoch.replication_sets[0].excluded, 3);
    assert!(epoch.replication_sets[0].non_witness_voters.contains(&1));
    assert!(epoch.replication_sets[0].non_witness_voters.contains(&2));
    assert!(!epoch.replication_sets[0].non_witness_voters.contains(&3));
}

#[test]
fn test_witness_progress_is_witness_flag() {
    let tracker = make_leader(vec![1, 2, 3], 3);
    assert!(!tracker.get(1).unwrap().is_witness);
    assert!(!tracker.get(2).unwrap().is_witness);
    assert!(tracker.get(3).unwrap().is_witness);
}

#[test]
fn test_conf_change_starts_new_subterm() {
    let mut tracker = make_leader(vec![1, 2, 3], 3);
    let subterm_before = tracker.epoch.subterm;

    let mut conf = Configuration::new(vec![1, 2, 3, 4], vec![]);
    conf.witnesses[0] = 3;
    tracker.apply_conf(conf, vec![(4, MapChangeType::Add)], 1);
    tracker.reset_replication_set(false);

    let subterm_after = tracker.epoch.subterm;
    assert!(subterm_after > subterm_before);
}

#[test]
fn test_joint_state_reset_replication_set_both_halves() {
    let mut tracker = make_leader(vec![1, 2, 3], 3);
    enter_joint(&mut tracker, vec![1, 2, 3, 4], 3, 4);

    assert_eq!(tracker.epoch.replication_sets[0].witness, 3);
    assert_eq!(tracker.epoch.replication_sets[1].witness, 3);
}

#[test]
fn test_joint_state_has_witness_in_both_halves() {
    let mut tracker = make_leader(vec![1, 2, 3], 3);
    enter_joint(&mut tracker, vec![1, 2, 3, 4], 3, 4);

    let epoch = &tracker.epoch;
    assert!(epoch.has_witness());
    assert!(epoch.replication_sets[0].witness != 0);
    assert!(epoch.replication_sets[1].witness != 0);
}

#[test]
fn test_joint_state_witness_in_both_replication_sets() {
    let mut tracker = make_leader(vec![1, 2, 3], 3);
    enter_joint(&mut tracker, vec![1, 2, 3, 4], 3, 4);

    let r0 = &tracker.epoch.replication_sets[0];
    assert_eq!(r0.witness, 3);
    assert!(r0.non_witness_voters.contains(&1));
    assert!(r0.non_witness_voters.contains(&2));
    assert!(r0.non_witness_voters.contains(&4));
    assert!(!r0.non_witness_voters.contains(&3));

    let r1 = &tracker.epoch.replication_sets[1];
    assert_eq!(r1.witness, 3);
    assert_eq!(r1.excluded, 3);
    assert!(r1.non_witness_voters.contains(&1));
    assert!(r1.non_witness_voters.contains(&2));
    assert!(!r1.non_witness_voters.contains(&3));
}

#[test]
fn test_witness_module_basic() {
    let mut w = Witness::new(3);
    w.term = 1;
    w.last_log_term = 1;
    w.last_log_index = 5;
    w.last_log_subterm = 0;
    w.replication_set = set_of(&[1, 2, 3]);

    let mut msg = WitnessMessage::default();
    msg.from = 1;
    msg.to = 3;
    msg.term = 2;
    msg.msg_type = MessageType::MsgRequestVote;
    msg.last_log_term = 1;
    msg.last_log_index = 5;
    msg.last_log_subterm = 0;
    msg.vote_ids = vec![1, 2];
    msg.vote_vals = vec![true, true];

    let resp = w.process(&msg);
    assert!(matches!(resp, Some(WitnessResponse::VoteGrant(true))));
    assert_eq!(w.vote, 1);
}

#[test]
fn test_witness_module_reject_stale() {
    let mut w = Witness::new(3);
    w.term = 1;
    w.last_log_term = 2;
    w.last_log_index = 10;
    w.commit = 10;
    w.committed_log_term = 2;
    w.committed_log_subterm = 0;
    w.replication_set = set_of(&[1, 2, 3]);

    let mut msg = WitnessMessage::default();
    msg.from = 1;
    msg.term = 2;
    msg.msg_type = MessageType::MsgRequestVote;
    msg.last_log_term = 1;
    msg.last_log_index = 5;
    msg.vote_ids = vec![1];
    msg.vote_vals = vec![true];

    let resp = w.process(&msg);
    assert!(matches!(resp, Some(WitnessResponse::VoteGrant(false))));
}

#[test]
fn test_witness_vote_joint_consensus_validation() {
    let mut w = Witness::new(5);
    w.term = 1;
    w.last_log_term = 1;
    w.last_log_subterm = 1;
    w.last_log_index = 5;

    let mut append_msg = WitnessMessage::default();
    append_msg.from = 1;
    append_msg.to = 5;
    append_msg.term = 1;
    append_msg.msg_type = MessageType::MsgAppend;
    append_msg.last_log_term = 1;
    append_msg.last_log_index = 5;
    append_msg.last_log_subterm = 1;
    append_msg.replication_set_incoming = vec![1, 2];
    append_msg.replication_set_outgoing = vec![1, 3];
    w.process(&append_msg);

    assert!(w.replication_set.contains(&1));
    assert!(w.replication_set.contains(&2));
    assert!(w.replication_set.contains(&3));

    let mut vote_msg = WitnessMessage::default();
    vote_msg.from = 1;
    vote_msg.to = 5;
    vote_msg.term = 1;
    vote_msg.msg_type = MessageType::MsgRequestVote;
    vote_msg.last_log_term = 1;
    vote_msg.last_log_index = 5;
    vote_msg.last_log_subterm = 1;
    vote_msg.vote_ids = vec![1, 3];
    vote_msg.vote_vals = vec![true, true];

    let resp = w.process(&vote_msg);
    assert!(
        matches!(resp, Some(WitnessResponse::VoteGrant(true))),
        "witness should grant vote even with outgoing-only voter"
    );
}

#[test]
fn test_2f1w_degradation_does_not_exclude_leader_after_reset() {
    for _ in 0..100 {
        let mut tracker = make_leader(vec![1, 2, 3], 3);
        assert!(!tracker.get(1).unwrap().recent_active);
        assert!(!tracker.get(2).unwrap().recent_active);

        let epoch = &tracker.epoch;
        assert_eq!(epoch.replication_sets[0].excluded, 3);
        assert!(epoch.replication_sets[0].non_witness_voters.contains(&1));
        assert!(epoch.replication_sets[0].non_witness_voters.contains(&2));

        tracker.change_replication_set_led_by(1);
        assert_ne!(tracker.epoch.replication_sets[0].excluded, 1);
    }
}

#[test]
fn test_2f1w_commit_succeeds_after_correct_degradation_swap() {
    let mut tracker = make_leader(vec![1, 2, 3], 3);
    tracker.get_mut(1).unwrap().matched = 1;
    tracker.get_mut(1).unwrap().recent_active = true;
    tracker.get_mut(2).unwrap().recent_active = false;
    tracker.get_mut(3).unwrap().recent_active = true;

    let changed = tracker.change_replication_set_led_by(1);
    assert!(changed, "degradation swap should occur");

    let epoch = &tracker.epoch;
    assert_eq!(epoch.replication_sets[0].excluded, 2, "follower 2 should be excluded");
    assert!(
        epoch.replication_sets[0].non_witness_voters.contains(&1),
        "leader should remain in replication set"
    );
    assert!(
        epoch.replication_sets[0].non_witness_voters.contains(&3),
        "witness should be swapped in"
    );
    let (w0, _w1) = tracker.epoch.replicate_to_witness();
    assert!(w0, "witness should need replication");

    tracker.get_mut(1).unwrap().matched = 2;
    let committed_before = tracker.maximal_committed_index().0;
    let index = tracker.one_less_than_quorum_in_replication_set()[&3];
    tracker.get_mut(3).unwrap().matched = index;
    let committed_after = tracker.maximal_committed_index().0;
    assert!(committed_after > committed_before);
    assert_eq!(committed_after, 2);
}

#[test]
fn test_2f1w_commit_blocked_with_witness_excluded_and_follower_unreachable() {
    let mut tracker = make_leader(vec![1, 2, 3], 3);
    let committed_before = tracker.maximal_committed_index().0;
    tracker.get_mut(1).unwrap().matched = 1;
    tracker.get_mut(2).unwrap().matched = 0;

    let committed_after = tracker.maximal_committed_index().0;
    assert_eq!(committed_before, committed_after);

    let (w0, _w1) = tracker.epoch.replicate_to_witness();
    assert!(!w0);
    assert!(tracker.one_less_than_quorum_in_replication_set().is_empty());
}

#[test]
fn test_2f1w_recovery_cycle_when_leader_swapped_on_first_tick() {
    let mut tracker = make_leader(vec![1, 2, 3], 3);
    {
        let epoch = &mut tracker.epoch;
        epoch.subterm = 1;
        let set = &mut epoch.replication_sets[0];
        set.excluded = 1;
        set.non_witness_voters.clear();
        set.non_witness_voters.insert(2);
        set.non_witness_voters.insert(3);
    }

    let changed_tick1 = tracker.change_replication_set_led_by(1);
    assert!(!changed_tick1, "no change expected on tick 1 with broken state");

    tracker.get_mut(1).unwrap().recent_active = true;
    tracker.get_mut(2).unwrap().recent_active = false;
    tracker.get_mut(3).unwrap().recent_active = true;

    let changed_tick2 = tracker.change_replication_set_led_by(1);
    assert!(changed_tick2, "recovery swap should occur on tick 2");

    let epoch = &tracker.epoch;
    assert_eq!(epoch.replication_sets[0].excluded, 2, "follower 2 should now be excluded");
    assert!(
        epoch.replication_sets[0].non_witness_voters.contains(&1),
        "leader should be back in the replication set"
    );
}

/// Replaces the witness W1 with W2, and has B fail, so that both witnesses stand in for B.
fn degraded_joint_leader() -> ProgressTracker {
    let mut tracker = make_leader(vec![A, B, W1], W1);
    enter_joint(&mut tracker, vec![A, B, W2], W2, W2);
    assert_eq!(tracker.conf().witnesses, [W2, W1]);
    for (id, pr) in tracker.iter_mut() {
        pr.recent_active = *id != B;
    }
    assert!(tracker.change_replication_set_led_by(A));
    tracker
}

#[test]
fn failure_of_w2_must_not_erase_the_still_active_old_configuration() {
    let mut tracker = degraded_joint_leader();
    assert_eq!(tracker.epoch.replication_sets[0].witness, W2);
    assert_eq!(tracker.epoch.replication_sets[1].witness, W1);
    assert_eq!(tracker.epoch.replication_sets[0].non_witness_voters, set_of(&[A, W2]));
    assert_eq!(tracker.epoch.replication_sets[1].non_witness_voters, set_of(&[A, W1]));

    tracker.get_mut(W2).unwrap().recent_active = false;
    tracker.change_replication_set_led_by(A);
    assert_eq!(tracker.epoch.replication_sets[1].witness, W1);
    assert!(tracker.epoch.replication_sets[1].non_witness_voters.contains(&W1));
}

#[test]
fn other_half_is_kept_when_one_half_changes() {
    let mut tracker = make_leader(vec![A, B, W1], W1);
    enter_joint(&mut tracker, vec![A, 5, W2], W2, W2);
    tracker.apply_conf(tracker.conf().clone(), vec![(5, MapChangeType::Add)], 1);
    for (id, pr) in tracker.iter_mut() {
        pr.recent_active = *id != 5;
    }
    tracker.epoch.witness_subterm = [1, 1];
    tracker.epoch.witness_pending_subterm = [1, 1];
    let subterm = tracker.epoch.subterm;

    assert!(tracker.change_replication_set_led_by(A));
    assert_eq!(tracker.epoch.replication_sets[0].excluded, 5);
    assert_eq!(tracker.epoch.replication_sets[0].non_witness_voters, set_of(&[A, W2]));
    assert_eq!(tracker.epoch.replication_sets[1].witness, W1);
    assert_eq!(tracker.epoch.replication_sets[1].excluded, W1);
    assert_eq!(tracker.epoch.replication_sets[1].non_witness_voters, set_of(&[A, B]));
    assert_eq!(tracker.epoch.subterm, subterm + 1);
    assert_eq!(tracker.epoch.witness_subterm, [0, 0]);
    assert_eq!(tracker.epoch.witness_pending_subterm, [0, 0]);
    assert_eq!(tracker.epoch.replicate_to_witness(), (true, false));
}

#[test]
fn recovered_voter_takes_its_place_back() {
    let mut tracker = make_leader(vec![1, 2, 3], 3);
    for (id, pr) in tracker.iter_mut() {
        pr.recent_active = *id != 2;
    }
    assert!(tracker.change_replication_set());
    assert_eq!(tracker.epoch.replication_sets[0].excluded, 2);
    assert_eq!(tracker.epoch.replication_sets[0].non_witness_voters, set_of(&[1, 3]));
    assert_eq!(tracker.epoch.subterm, 1);

    tracker.get_mut(2).unwrap().recent_active = true;
    assert!(!tracker.change_replication_set(), "not while appends are not streamed");
    assert_eq!(tracker.epoch.subterm, 1);

    tracker.get_mut(2).unwrap().state = ProgressState::Replicate;
    assert!(tracker.change_replication_set());
    assert_eq!(tracker.epoch.replication_sets[0].witness, 3);
    assert_eq!(tracker.epoch.replication_sets[0].excluded, 3);
    assert_eq!(tracker.epoch.replication_sets[0].non_witness_voters, set_of(&[1, 2]));
    assert_eq!(tracker.epoch.subterm, 2);
    assert!(!tracker.change_replication_set());
}

#[test]
fn witness_takes_the_place_of_an_inactive_voter_of_five() {
    let mut tracker = make_leader(vec![1, 2, 3, 4, 5], 5);
    for (id, pr) in tracker.iter_mut() {
        pr.recent_active = *id != 4;
    }
    assert!(tracker.change_replication_set_led_by(1));
    assert_eq!(tracker.epoch.replication_sets[0].excluded, 4);
    assert_eq!(tracker.epoch.replication_sets[0].non_witness_voters, set_of(&[1, 2, 3, 5]));

    tracker.get_mut(4).unwrap().recent_active = true;
    tracker.get_mut(4).unwrap().state = ProgressState::Replicate;
    tracker.get_mut(3).unwrap().recent_active = false;
    assert!(tracker.change_replication_set_led_by(1));
    assert_eq!(tracker.epoch.replication_sets[0].excluded, 3);
    assert_eq!(tracker.epoch.replication_sets[0].non_witness_voters, set_of(&[1, 2, 4, 5]));
}

#[test]
fn nothing_changes_without_a_witness() {
    let mut tracker = make_leader(vec![1, 2, 3], 0);
    assert_eq!(tracker.epoch.replication_sets[0].non_witness_voters, set_of(&[1, 2, 3]));
    assert!(!tracker.change_replication_set());
    assert!(!tracker.change_replication_set_led_by(1));
    assert_eq!(tracker.epoch.subterm, 0);
    assert_eq!(tracker.epoch.replication_sets[0].non_witness_voters, set_of(&[1, 2, 3]));
}
