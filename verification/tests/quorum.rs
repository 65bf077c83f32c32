//! Quorums, elections and committed indexes.
use std::collections::{HashMap, HashSet};

use raft_witness::confchange::MapChangeType;
use raft_witness::quorum::majority::majority;
use raft_witness::quorum::{AckedIndexer, Index, JointConfig, MajorityConfig, VoteResult};
use raft_witness::tracker::{Configuration, Progress, ProgressMap, ProgressTracker};

fn set_of(ids: &[u64]) -> HashSet<u64> {
    ids.iter().copied().collect()
}

fn votes_of(votes: &[(u64, bool)]) -> HashMap<u64, bool> {
    votes.iter().copied().collect()
}

/// The progress of nodes 1, 2, ... with the given matched indexes and commit groups.
fn progress_of(acks: &[(u64, u64)]) -> ProgressMap {
    let mut progress = ProgressMap::new();
    for (i, (matched, group)) in acks.iter().enumerate() {
        let mut pr = Progress::new(1, 256);
        pr.matched = *matched;
        pr.commit_group_id = *group;
        progress.insert(i as u64 + 1, pr);
    }
    progress
}

fn tracker_of(incoming: &[u64], outgoing: &[u64]) -> ProgressTracker {
    let mut conf = Configuration::new(incoming.to_vec(), vec![]);
    conf.voters.outgoing = MajorityConfig::new(set_of(outgoing));
    let changes = conf.voters.ids().into_iter().map(|id| (id, MapChangeType::Add)).collect();
    let mut tracker = ProgressTracker::with_capacity(incoming.len(), 0, 256);
    tracker.apply_conf(conf, changes, 1);
    tracker
}

#[test]
fn majority_is_more_than_half() {
    assert_eq!(majority(0), 1);
    assert_eq!(majority(1), 1);
    assert_eq!(majority(2), 2);
    assert_eq!(majority(3), 2);
    assert_eq!(majority(4), 3);
    assert_eq!(majority(5), 3);
}

#[test]
fn committed_index_is_what_a_majority_has() {
    let five = MajorityConfig::new(set_of(&[1, 2, 3, 4, 5]));
    let progress = progress_of(&[(2, 0), (2, 0), (2, 0), (4, 0), (5, 0)]);
    assert_eq!(five.committed_index(false, &progress), (2, false));
    let three = MajorityConfig::new(set_of(&[3, 4, 5]));
    assert_eq!(three.committed_index(false, &progress), (4, false));
    let unknown = MajorityConfig::new(set_of(&[5, 8, 9]));
    assert_eq!(unknown.committed_index(false, &progress), (0, false));
    assert_eq!(MajorityConfig::default().committed_index(false, &progress), (u64::MAX, true));
}

#[test]
fn group_commit_needs_two_groups() {
    let conf = MajorityConfig::new(set_of(&[1, 2, 3]));
    assert_eq!(
        conf.committed_index(true, &progress_of(&[(1, 1), (2, 2), (3, 2)])),
        (1, true)
    );
    assert_eq!(
        conf.committed_index(true, &progress_of(&[(4, 1), (2, 2), (3, 2)])),
        (3, true)
    );
    assert_eq!(
        conf.committed_index(true, &progress_of(&[(1, 2), (2, 2), (3, 2)])),
        (2, false)
    );
    assert_eq!(
        conf.committed_index(true, &progress_of(&[(1, 0), (2, 2), (3, 2)])),
        (1, false)
    );
    assert_eq!(
        conf.committed_index(true, &progress_of(&[(1, 0), (2, 1), (3, 2)])),
        (2, true)
    );
}

#[test]
fn one_less_than_quorum_lacks_one_ack() {
    let progress = progress_of(&[(9, 0), (7, 0), (5, 0), (3, 0), (1, 0)]);
    let of = |ids: &[u64]| MajorityConfig::new(set_of(ids)).one_less_than_quorum(&progress);
    assert_eq!(of(&[1, 2]), 9);
    assert_eq!(of(&[1, 2, 3]), 9);
    assert_eq!(of(&[1, 2, 3, 4]), 7);
    assert_eq!(of(&[1, 2, 3, 4, 5]), 7);
    assert_eq!(of(&[1]), u64::MAX);
    assert_eq!(of(&[]), u64::MAX);
}

#[test]
fn joint_committed_index_is_the_lesser() {
    let mut conf = JointConfig::new(set_of(&[1, 2, 3]));
    let progress = progress_of(&[(9, 0), (7, 0), (5, 0), (3, 0), (1, 0)]);
    assert_eq!(conf.committed_index(false, &progress), (7, false));
    conf.outgoing = MajorityConfig::new(set_of(&[3, 4, 5]));
    assert_eq!(conf.committed_index(false, &progress), (3, false));
    assert_eq!(conf.ids(), set_of(&[1, 2, 3, 4, 5]));
    assert!(conf.contains(5) && conf.contains(1) && !conf.contains(6));
    assert!(!conf.is_singleton());
}

#[test]
fn election_outcomes() {
    let conf = MajorityConfig::new(set_of(&[1, 2, 3]));
    assert_eq!(conf.vote_result_with_diff(&votes_of(&[])), (VoteResult::Pending, 2));
    assert_eq!(
        conf.vote_result_with_diff(&votes_of(&[(1, true), (2, false)])),
        (VoteResult::Pending, 1)
    );
    assert_eq!(
        conf.vote_result_with_diff(&votes_of(&[(1, true), (3, true)])),
        (VoteResult::Won, 0)
    );
    assert_eq!(
        conf.vote_result_with_diff(&votes_of(&[(1, false), (3, false)])),
        (VoteResult::Lost, 2)
    );
    assert_eq!(
        conf.vote_result(&votes_of(&[(7, true), (8, true), (9, true)])),
        VoteResult::Pending
    );
    assert_eq!(MajorityConfig::default().vote_result(&votes_of(&[])), VoteResult::Won);
}

#[test]
fn joint_election_needs_both_halves() {
    let mut conf = JointConfig::new(set_of(&[1, 2, 3]));
    conf.outgoing = MajorityConfig::new(set_of(&[3, 4, 5]));
    let two = votes_of(&[(1, true), (2, true)]);
    assert_eq!(conf.vote_result_with_diff(&two), (VoteResult::Pending, [0, 2]));
    let lost = votes_of(&[(1, true), (2, true), (4, false), (5, false)]);
    assert_eq!(conf.vote_result(&lost), VoteResult::Lost);
    let won = votes_of(&[(1, true), (2, true), (3, true), (4, true), (5, false)]);
    assert_eq!(conf.vote_result_with_diff(&won), (VoteResult::Won, [0, 0]));
}

#[test]
fn outcome_stands_when_more_votes_come() {
    let mut tracker = tracker_of(&[1, 2, 3], &[]);
    tracker.record_vote(1, true);
    tracker.record_vote(3, true);
    assert_eq!(tracker.tally_votes(), (2, 0, VoteResult::Won));
    tracker.record_vote(2, false);
    assert_eq!(tracker.tally_votes(), (2, 1, VoteResult::Won));
}

#[test]
fn first_vote_of_a_node_counts() {
    let mut tracker = tracker_of(&[1, 2, 3], &[]);
    tracker.record_vote(1, true);
    tracker.record_vote(1, false);
    assert_eq!(tracker.votes()[&1], true);
    assert_eq!(tracker.tally_votes(), (1, 0, VoteResult::Pending));
    tracker.reset_votes();
    assert!(tracker.votes().is_empty());
    tracker.record_vote(1, false);
    assert_eq!(tracker.tally_votes(), (0, 1, VoteResult::Pending));
}

#[test]
fn tally_counts_voters_only() {
    let mut tracker = tracker_of(&[1, 2, 3], &[3, 4, 5]);
    for (id, vote) in [(1, true), (2, true), (4, false), (9, true), (8, false)] {
        tracker.record_vote(id, vote);
    }
    assert_eq!(tracker.tally_votes(), (2, 1, VoteResult::Pending));
    assert_eq!(tracker.tally_votes_with_diff(), (2, 1, VoteResult::Pending, [0, 2]));
    tracker.record_vote(3, true);
    tracker.record_vote(5, true);
    assert_eq!(tracker.tally_votes_with_diff(), (4, 1, VoteResult::Won, [0, 0]));
    assert_eq!(tracker.vote_result(&votes_of(&[])), VoteResult::Pending);
}

#[test]
fn quorum_needs_a_majority_of_each_half() {
    let tracker = tracker_of(&[1, 2, 3], &[3, 4, 5]);
    assert!(!tracker.has_quorum(&set_of(&[1, 2])));
    assert!(!tracker.has_quorum(&set_of(&[4, 5])));
    assert!(tracker.has_quorum(&set_of(&[1, 3, 5])));
    assert!(tracker.has_quorum(&set_of(&[1, 2, 4, 5])));
    assert!(tracker_of(&[], &[]).has_quorum(&set_of(&[])));
}

#[test]
fn poll_counts_leader_and_witness_and_forgets_the_rest() {
    let mut tracker = tracker_of(&[1, 2, 3, 4, 5], &[]);
    tracker.get_mut(5).unwrap().is_witness = true;
    for (_, pr) in tracker.iter_mut() {
        pr.recent_active = false;
    }
    assert!(!tracker.quorum_recently_active(1));
    assert!(tracker.get(1).unwrap().recent_active);
    assert!(tracker.get(5).unwrap().recent_active);

    tracker.get_mut(2).unwrap().recent_active = true;
    assert!(tracker.quorum_recently_active(1));
    assert!(!tracker.get(2).unwrap().recent_active);
    assert!(!tracker.quorum_recently_active(1));
}

#[test]
fn maximal_committed_index_of_a_tracker() {
    let mut tracker = tracker_of(&[1, 2, 3, 4, 5], &[]);
    for (id, matched) in [(1, 2), (2, 2), (3, 2), (4, 4), (5, 5)] {
        tracker.get_mut(id).unwrap().matched = matched;
    }
    assert_eq!(tracker.maximal_committed_index(), (2, false));

    let mut tracker = tracker_of(&[1, 2, 3], &[]);
    for (id, matched, group) in [(1, 1, 1), (2, 2, 2), (3, 3, 2)] {
        let pr = tracker.get_mut(id).unwrap();
        pr.matched = matched;
        pr.commit_group_id = group;
    }
    assert_eq!(tracker.maximal_committed_index(), (2, false));
    assert!(!tracker.group_commit());
    tracker.enable_group_commit(true);
    assert!(tracker.group_commit());
    assert_eq!(tracker.maximal_committed_index(), (1, true));
}

#[test]
fn acked_index_of_a_progress_map() {
    let progress = progress_of(&[(4, 7)]);
    assert_eq!(progress.acked_index(1), Some(Index { index: 4, group_id: 7 }));
    assert_eq!(progress.acked_index(2), None);
}

#[test]
fn any_two_quorums_intersect() {
    let tracker = tracker_of(&[1, 2, 3, 4], &[3, 4, 5]);
    let quorums: Vec<HashSet<u64>> = (0u64..64)
        .map(|bits| (0..6).filter(|i| bits & (1 << i) != 0).collect())
        .filter(|ids| tracker.has_quorum(ids))
        .collect();
    assert!(!quorums.is_empty());
    for a in &quorums {
        for b in &quorums {
            let common: HashSet<u64> = a.intersection(b).copied().collect();
            assert!([1, 2, 3, 4].iter().any(|id| common.contains(id)));
            assert!([3, 4, 5].iter().any(|id| common.contains(id)));
        }
        let mut more = a.clone();
        more.insert(9);
        more.insert(1);
        assert!(tracker.has_quorum(&more));
    }
}

#[test]
fn all_votes_decide_and_add_up() {
    for bits in 0u64..16 {
        let mut tracker = tracker_of(&[1, 2, 3, 4], &[]);
        for id in 1..=4 {
            tracker.record_vote(id, bits & (1 << (id - 1)) != 0);
        }
        let (granted, rejected, result, diff) = tracker.tally_votes_with_diff();
        assert_eq!(granted + rejected, 4);
        assert_eq!(granted, bits.count_ones() as usize);
        assert_eq!(result == VoteResult::Won, diff == [0, 0]);
        assert_eq!(result, if granted >= 3 { VoteResult::Won } else { VoteResult::Lost });
    }
}

#[test]
fn as_many_votes_as_needed_win() {
    let mut tracker = tracker_of(&[1, 2, 3, 4, 5], &[]);
    tracker.record_vote(1, true);
    tracker.record_vote(2, false);
    assert_eq!(tracker.tally_votes_with_diff().3, [2, 0]);
    tracker.record_vote(3, true);
    tracker.record_vote(4, true);
    assert_eq!(tracker.tally_votes().2, VoteResult::Won);
}

#[test]
fn committed_index_advances_with_acks() {
    let conf = JointConfig::new(set_of(&[1, 2, 3]));
    let before = progress_of(&[(5, 1), (3, 1), (1, 2)]);
    let after = progress_of(&[(5, 1), (4, 1), (4, 2)]);
    assert_eq!(conf.committed_index(false, &before), (3, false));
    assert_eq!(conf.committed_index(false, &after), (4, false));
    assert_eq!(conf.committed_index(true, &before), (1, true));
    assert_eq!(conf.committed_index(true, &after), (4, true));
}

#[test]
fn one_more_ack_commits() {
    let conf = MajorityConfig::new(set_of(&[1, 2, 3, 4]));
    let mut progress = progress_of(&[(10, 0), (8, 0), (0, 0), (0, 0)]);
    assert_eq!(conf.one_less_than_quorum(&progress), 8);
    assert_eq!(conf.committed_index(false, &progress).0, 0);
    progress.get_mut(&4).unwrap().matched = 8;
    assert_eq!(conf.committed_index(false, &progress).0, 8);
}
