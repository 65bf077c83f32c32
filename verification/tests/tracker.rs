//! The tracker: replication sets, shortcut replication and membership.
use std::collections::HashSet;

use raft_witness::confchange::{MapChange, MapChangeType};
use raft_witness::quorum::AckedIndexer;
use raft_witness::tracker::{Configuration, Epoch, ProgressTracker, ScopedAckIndexer};

fn make_tracker_with_witness(voters: &[u64], witness: u64) -> ProgressTracker {
    let mut tracker = ProgressTracker::with_capacity(voters.len(), 0, 256);
    let mut conf = Configuration::new(voters.to_vec(), vec![]);
    conf.witnesses[0] = witness;
    let changes: MapChange = voters.iter().map(|&id| (id, MapChangeType::Add)).collect();
    tracker.apply_conf(conf, changes, 1);
    tracker.reset_replication_set(true);
    tracker
}

#[test]
fn test_epoch_has_witness() {
    let mut epoch = Epoch::default();
    assert!(!epoch.has_witness());

    epoch.replication_sets[0].witness = 3;
    assert!(epoch.has_witness());

    let mut epoch2 = Epoch::default();
    epoch2.replication_sets[1].witness = 5;
    assert!(epoch2.has_witness());
}

#[test]
fn test_epoch_replicate_to_witness() {
    let mut epoch = Epoch::default();
    assert_eq!(epoch.replicate_to_witness(), (false, false));

    epoch.replication_sets[0].witness = 3;
    assert_eq!(epoch.replicate_to_witness(), (true, false));

    epoch.replication_sets[0].excluded = 3;
    assert_eq!(epoch.replicate_to_witness(), (false, false));

    epoch.replication_sets[0].excluded = 2;
    assert_eq!(epoch.replicate_to_witness(), (true, false));
}

#[test]
fn test_epoch_witness_subterm_default() {
    let epoch = Epoch::default();
    assert_eq!(epoch.witness_subterm, [0, 0]);
}

#[test]
fn test_reset_replication_set_basic() {
    let tracker = make_tracker_with_witness(&[1, 2, 3], 3);
    let epoch = &tracker.epoch;

    assert_eq!(epoch.subterm, 0);
    assert_eq!(epoch.replication_sets[0].witness, 3);
    assert_eq!(epoch.replication_sets[0].excluded, 3);
    assert!(epoch.replication_sets[0].non_witness_voters.contains(&1));
    assert!(epoch.replication_sets[0].non_witness_voters.contains(&2));
    assert!(!epoch.replication_sets[0].non_witness_voters.contains(&3));
}

#[test]
fn test_reset_replication_set_increment_subterm() {
    let mut tracker = make_tracker_with_witness(&[1, 2, 3], 3);
    tracker.epoch.subterm = 5;
    tracker.epoch.witness_subterm[0] = 5;

    tracker.reset_replication_set(false);
    assert_eq!(tracker.epoch.subterm, 6);
    assert_eq!(tracker.epoch.witness_subterm, [0, 0]);
}

#[test]
fn test_reset_replication_set_no_witness() {
    let mut tracker = ProgressTracker::with_capacity(3, 0, 256);
    let conf = Configuration::new(vec![1, 2, 3], vec![]);
    let changes: MapChange = vec![
        (1, MapChangeType::Add),
        (2, MapChangeType::Add),
        (3, MapChangeType::Add),
    ];
    tracker.apply_conf(conf, changes, 1);
    tracker.reset_replication_set(true);

    assert_eq!(tracker.epoch.replication_sets[0].witness, 0);
    assert_eq!(tracker.epoch.replication_sets[0].excluded, 0);
}

#[test]
fn test_reset_replication_set_2_voters_1_witness_includes_witness() {
    let tracker = make_tracker_with_witness(&[1, 2], 2);
    let epoch = &tracker.epoch;

    assert_eq!(epoch.subterm, 0);
    assert_eq!(epoch.replication_sets[0].witness, 2);
    assert_eq!(epoch.replication_sets[0].excluded, 0);
    assert!(epoch.replication_sets[0].non_witness_voters.contains(&1));
    assert!(epoch.replication_sets[0].non_witness_voters.contains(&2));
    assert_eq!(epoch.replication_sets[0].non_witness_voters.len(), 2);
}

#[test]
fn test_reset_replication_set_2_voters_replicate_to_witness() {
    let tracker = make_tracker_with_witness(&[1, 2], 2);
    let (needs_witness, witness_is_excluded) = tracker.epoch.replicate_to_witness();
    assert!(needs_witness);
    assert!(!witness_is_excluded);
}

#[test]
fn test_reset_replication_set_2_voters_shortcut_replication() {
    let mut tracker = make_tracker_with_witness(&[1, 2], 2);

    tracker.get_mut(1).unwrap().matched = 42;

    let result = tracker.one_less_than_quorum_in_replication_set();
    assert_eq!(result.len(), 1);
    assert!(result.contains_key(&2));
    assert_eq!(result[&2], 42);
}

#[test]
fn test_one_less_than_quorum_2_voters_1_witness() {
    let mut tracker = make_tracker_with_witness(&[1, 2, 3], 3);
    tracker.epoch.replication_sets[0].excluded = 2;
    tracker.epoch.replication_sets[0]
        .non_witness_voters
        .insert(3);
    tracker.epoch.replication_sets[0]
        .non_witness_voters
        .remove(&2);

    tracker.get_mut(1).unwrap().matched = 5;
    tracker.get_mut(3).unwrap().matched = 3;

    let result = tracker.one_less_than_quorum_in_replication_set();
    assert_eq!(result.len(), 1);
    assert!(result[&3] >= 3);
}

#[test]
fn test_one_less_than_quorum_3_voters_1_witness() {
    let mut tracker = make_tracker_with_witness(&[1, 2, 3, 4], 4);
    tracker.epoch.replication_sets[0].excluded = 2;
    tracker.epoch.replication_sets[0]
        .non_witness_voters
        .insert(4);
    tracker.epoch.replication_sets[0]
        .non_witness_voters
        .remove(&2);

    tracker.get_mut(1).unwrap().matched = 10;
    tracker.get_mut(3).unwrap().matched = 8;
    tracker.get_mut(4).unwrap().matched = 6;

    let result = tracker.one_less_than_quorum_in_replication_set();
    assert_eq!(result.len(), 1);
    assert_eq!(result[&4], 8);
}

#[test]
fn test_one_less_than_quorum_no_witness_empty() {
    let tracker = make_tracker_with_witness(&[1, 2, 3], 0);
    let result = tracker.one_less_than_quorum_in_replication_set();
    assert!(result.is_empty());
}

#[test]
fn test_one_less_than_quorum_witness_excluded() {
    let mut tracker = make_tracker_with_witness(&[1, 2, 3], 3);
    tracker.epoch.replication_sets[0].excluded = 3;

    let result = tracker.one_less_than_quorum_in_replication_set();
    assert!(result.is_empty());
}

#[test]
fn test_apply_conf_sets_witness_flag() {
    let tracker = make_tracker_with_witness(&[1, 2, 3], 3);

    assert!(!tracker.get(1).unwrap().is_witness);
    assert!(!tracker.get(2).unwrap().is_witness);
    assert!(tracker.get(3).unwrap().is_witness);
}

#[test]
fn test_apply_conf_no_witness() {
    let mut tracker = ProgressTracker::with_capacity(3, 0, 256);
    let conf = Configuration::new(vec![1, 2, 3], vec![]);
    let changes: MapChange = vec![
        (1, MapChangeType::Add),
        (2, MapChangeType::Add),
        (3, MapChangeType::Add),
    ];
    tracker.apply_conf(conf, changes, 1);

    for id in 1u64..=3 {
        assert!(!tracker.get(id).unwrap().is_witness);
    }
}

#[test]
fn test_scoped_indexer_only_reports_scoped() {
    let mut tracker = make_tracker_with_witness(&[1, 2, 3], 3);

    tracker.get_mut(1).unwrap().matched = 10;
    tracker.get_mut(2).unwrap().matched = 20;
    tracker.get_mut(3).unwrap().matched = 99;

    let scope: HashSet<u64> = vec![1, 2].into_iter().collect();
    let scoped = ScopedAckIndexer {
        indexer: tracker.progress(),
        scope: &scope,
    };

    assert_eq!(scoped.acked_index(1).unwrap().index, 10);
    assert_eq!(scoped.acked_index(2).unwrap().index, 20);
    assert!(scoped.acked_index(3).is_none());
}

#[test]
fn test_change_replication_set_no_change_when_all_active() {
    let mut tracker = make_tracker_with_witness(&[1, 2, 3], 3);

    for id in &[1, 2, 3] {
        tracker.get_mut(*id).unwrap().recent_active = true;
    }

    let changed = tracker.change_replication_set();
    assert!(!changed);
}

#[test]
fn test_change_replication_set_excludes_inactive() {
    let mut tracker = make_tracker_with_witness(&[1, 2, 3], 3);

    tracker.get_mut(1).unwrap().recent_active = true;
    tracker.get_mut(2).unwrap().recent_active = false;
    tracker.get_mut(3).unwrap().recent_active = true;

    let changed = tracker.change_replication_set();
    assert!(changed);
    assert_eq!(tracker.epoch.replication_sets[0].excluded, 2);
    assert!(tracker.epoch.replication_sets[0]
        .non_witness_voters
        .contains(&1));
    assert!(tracker.epoch.replication_sets[0]
        .non_witness_voters
        .contains(&3));
}

#[test]
fn test_change_replication_set_degrade_swap_unreachable_with_witness() {
    let mut tracker = ProgressTracker::with_capacity(2, 0, 256);

    let mut conf = Configuration::new(vec![43u64, 44u64], vec![]);
    conf.witnesses[0] = 230;
    let changes: MapChange = vec![(43, MapChangeType::Add), (44, MapChangeType::Add)]
        .into_iter()
        .collect();
    tracker.apply_conf(conf, changes, 1);
    tracker.reset_replication_set(true);

    assert_eq!(tracker.epoch.replication_sets[0].witness, 230);
    assert_eq!(tracker.epoch.replication_sets[0].excluded, 230);
    assert!(tracker.epoch.replication_sets[0]
        .non_witness_voters
        .contains(&43));
    assert!(tracker.epoch.replication_sets[0]
        .non_witness_voters
        .contains(&44));
    assert!(!tracker.epoch.replication_sets[0]
        .non_witness_voters
        .contains(&230));

    tracker.get_mut(43).unwrap().recent_active = false;
    tracker.get_mut(44).unwrap().recent_active = true;

    let changed = tracker.change_replication_set();
    assert!(changed);
    let rs = &tracker.epoch.replication_sets[0];
    assert_eq!(rs.excluded, 43);
    assert!(rs.non_witness_voters.contains(&44));
    assert!(rs.non_witness_voters.contains(&230));
    assert!(!rs.non_witness_voters.contains(&43));
    assert_eq!(tracker.epoch.replicate_to_witness(), (true, false));
}
