//! Elections, appends and heartbeats at a witness.
use std::collections::HashSet;

use raft_witness::eraftpb::{Entry, MessageType, WitnessMessage};
use raft_witness::witness::{Witness, WitnessResponse};

fn make_vote_msg(
    from: u64,
    term: u64,
    last_log_term: u64,
    last_log_subterm: u64,
    last_log_index: u64,
    vote_ids: &[u64],
    vote_vals: &[bool],
) -> WitnessMessage {
    let mut msg = WitnessMessage::default();
    msg.from = from;
    msg.term = term;
    msg.msg_type = MessageType::MsgRequestVote;
    msg.last_log_term = last_log_term;
    msg.last_log_subterm = last_log_subterm;
    msg.last_log_index = last_log_index;
    msg.vote_ids = vote_ids.to_vec();
    msg.vote_vals = vote_vals.to_vec();
    msg
}

fn make_append_msg(
    from: u64,
    term: u64,
    entries: &[(u64, u64, u64)],
    commit: u64,
) -> WitnessMessage {
    let mut msg = WitnessMessage::default();
    msg.from = from;
    msg.term = term;
    msg.msg_type = MessageType::MsgAppend;
    msg.commit = commit;
    if !entries.is_empty() {
        let first = entries[0];
        msg.last_log_term = first.1;
        msg.last_log_subterm = first.2;
        msg.last_log_index = first.0;
    }
    msg.entries = entries
        .iter()
        .map(|(idx, t, st)| {
            let mut e = Entry::default();
            e.index = *idx;
            e.term = *t;
            e.subterm = *st;
            e
        })
        .collect();
    msg
}

#[test]
fn test_witness_vote_grant() {
    let mut w = Witness::new(3);
    w.term = 1;
    w.last_log_term = 1;
    w.last_log_index = 5;
    w.last_log_subterm = 0;
    w.replication_set = vec![1, 2, 3].into_iter().collect();

    let mut msg = WitnessMessage::default();
    msg.from = 1;
    msg.term = 2;
    msg.msg_type = MessageType::MsgRequestVote;
    msg.last_log_term = 1;
    msg.last_log_index = 5;
    msg.last_log_subterm = 0;
    msg.vote_ids = vec![1, 2];
    msg.vote_vals = vec![true, true];

    let resp = w.process(&msg);
    assert!(matches!(resp, Some(WitnessResponse::VoteGrant(true))));
    assert_eq!(w.vote, 1);
}

#[test]
fn test_witness_vote_reject_stale_log() {
    let mut w = Witness::new(3);
    w.term = 1;
    w.last_log_term = 2;
    w.last_log_index = 10;
    w.commit = 10;
    w.committed_log_term = 2;
    w.committed_log_subterm = 0;
    w.replication_set = vec![1, 2, 3].into_iter().collect();

    let mut msg = WitnessMessage::default();
    msg.from = 1;
    msg.term = 2;
    msg.msg_type = MessageType::MsgRequestVote;
    msg.last_log_term = 1;
    msg.last_log_index = 5;
    msg.vote_ids = vec![1];
    msg.vote_vals = vec![true];

    let resp = w.process(&msg);
    assert!(matches!(resp, Some(WitnessResponse::VoteGrant(false))));
}

#[test]
fn test_witness_vote_no_double_vote_same_term() {
    let mut w = Witness::new(3);
    w.term = 5;
    w.last_log_term = 3;
    w.last_log_index = 10;
    w.last_log_subterm = 2;
    w.replication_set = vec![1, 2, 3].into_iter().collect();

    let msg1 = make_vote_msg(1, 5, 3, 2, 10, &[1], &[true]);
    let resp1 = w.process(&msg1);
    assert!(matches!(resp1, Some(WitnessResponse::VoteGrant(true))));
    assert_eq!(w.vote, 1);

    let msg2 = make_vote_msg(2, 5, 3, 2, 10, &[2], &[true]);
    let resp2 = w.process(&msg2);
    assert!(matches!(resp2, Some(WitnessResponse::VoteGrant(false))));
    assert_eq!(w.vote, 1);
}

#[test]
fn test_witness_vote_revote_same_candidate_same_term() {
    let mut w = Witness::new(3);
    w.term = 5;
    w.last_log_term = 3;
    w.last_log_index = 10;
    w.last_log_subterm = 2;
    w.replication_set = vec![1, 2, 3].into_iter().collect();

    let msg = make_vote_msg(1, 5, 3, 2, 10, &[1], &[true]);
    let resp1 = w.process(&msg);
    assert!(matches!(resp1, Some(WitnessResponse::VoteGrant(true))));

    let resp2 = w.process(&msg);
    assert!(matches!(resp2, Some(WitnessResponse::VoteGrant(true))));
}

#[test]
fn test_witness_vote_resets_on_higher_term() {
    let mut w = Witness::new(3);
    w.term = 5;
    w.vote = 1;
    w.last_log_term = 3;
    w.last_log_index = 10;
    w.last_log_subterm = 2;
    w.replication_set = vec![1, 2, 3].into_iter().collect();

    let msg = make_vote_msg(2, 6, 4, 0, 10, &[2], &[true]);
    let resp = w.process(&msg);
    assert!(matches!(resp, Some(WitnessResponse::VoteGrant(true))));
    assert_eq!(w.term, 6);
    assert_eq!(w.vote, 2);
}

#[test]
fn test_witness_log_ok_higher_term() {
    let mut w = Witness::new(3);
    w.term = 5;
    w.last_log_term = 3;
    w.last_log_index = 10;
    w.last_log_subterm = 2;
    w.replication_set = vec![1, 2].into_iter().collect();

    let msg = make_vote_msg(1, 5, 4, 0, 8, &[1], &[true]);
    let resp = w.process(&msg);
    assert!(matches!(resp, Some(WitnessResponse::VoteGrant(true))));
}

#[test]
fn test_witness_log_ok_same_term_higher_subterm() {
    let mut w = Witness::new(3);
    w.term = 5;
    w.last_log_term = 3;
    w.last_log_index = 10;
    w.last_log_subterm = 2;
    w.replication_set = vec![1, 2].into_iter().collect();

    let msg = make_vote_msg(1, 5, 3, 3, 10, &[1], &[true]);
    let resp = w.process(&msg);
    assert!(matches!(resp, Some(WitnessResponse::VoteGrant(true))));
}

#[test]
fn test_witness_log_ok_same_term_lower_subterm() {
    let mut w = Witness::new(3);
    w.term = 5;
    w.last_log_term = 3;
    w.last_log_index = 10;
    w.last_log_subterm = 5;
    w.commit = 10;
    w.committed_log_term = 3;
    w.committed_log_subterm = 5;

    let msg = make_vote_msg(1, 5, 3, 2, 10, &[1], &[true]);
    let resp = w.process(&msg);
    assert!(matches!(resp, Some(WitnessResponse::VoteGrant(false))));
}

#[test]
fn test_witness_log_ok_same_term_subterm_subset_pass() {
    let mut w = Witness::new(3);
    w.term = 5;
    w.last_log_term = 3;
    w.last_log_index = 10;
    w.last_log_subterm = 2;
    w.replication_set = vec![1, 2, 3].into_iter().collect();

    let msg = make_vote_msg(1, 5, 3, 2, 10, &[1, 2, 4], &[true, true, false]);
    let resp = w.process(&msg);
    assert!(matches!(resp, Some(WitnessResponse::VoteGrant(true))));
}

#[test]
fn test_witness_log_ok_same_term_subterm_subset_fail() {
    let mut w = Witness::new(3);
    w.term = 5;
    w.last_log_term = 3;
    w.last_log_index = 10;
    w.last_log_subterm = 2;
    w.commit = 10;
    w.committed_log_term = 3;
    w.committed_log_subterm = 2;
    w.replication_set = vec![1, 2].into_iter().collect();

    let msg = make_vote_msg(1, 5, 3, 2, 10, &[1, 5], &[true, true]);
    let resp = w.process(&msg);
    assert!(matches!(resp, Some(WitnessResponse::VoteGrant(false))));
}

#[test]
fn test_witness_log_ok_same_term_subterm_subset_strict() {
    let mut w = Witness::new(3);
    w.term = 5;
    w.last_log_term = 3;
    w.last_log_index = 10;
    w.last_log_subterm = 2;
    w.commit = 10;
    w.committed_log_term = 3;
    w.committed_log_subterm = 2;
    w.replication_set = vec![1, 2].into_iter().collect();

    let msg = make_vote_msg(1, 5, 3, 2, 10, &[1, 2, 99], &[true, true, true]);
    let resp = w.process(&msg);
    assert!(matches!(resp, Some(WitnessResponse::VoteGrant(false))));
}

#[test]
fn test_witness_log_ok_higher_term_no_index_check() {
    let mut w = Witness::new(3);
    w.term = 5;
    w.last_log_term = 3;
    w.last_log_index = 20;
    w.last_log_subterm = 2;
    w.replication_set = vec![1, 2].into_iter().collect();

    let msg = make_vote_msg(1, 5, 5, 0, 8, &[1], &[true]);
    let resp = w.process(&msg);
    assert!(matches!(resp, Some(WitnessResponse::VoteGrant(true))));
}

#[test]
fn test_witness_log_ok_lower_term_rejected() {
    let mut w = Witness::new(3);
    w.term = 5;
    w.last_log_term = 5;
    w.last_log_index = 10;
    w.last_log_subterm = 2;
    w.commit = 10;
    w.committed_log_term = 5;
    w.committed_log_subterm = 2;

    let msg = make_vote_msg(1, 5, 3, 5, 15, &[1], &[true]);
    let resp = w.process(&msg);
    assert!(matches!(resp, Some(WitnessResponse::VoteGrant(false))));
}

#[test]
fn test_witness_prevote_does_not_record_vote() {
    let mut w = Witness::new(3);
    w.term = 5;
    w.last_log_term = 3;
    w.last_log_index = 10;
    w.last_log_subterm = 2;
    w.replication_set = vec![1, 2, 3].into_iter().collect();

    let mut msg = make_vote_msg(1, 5, 3, 2, 10, &[1], &[true]);
    msg.msg_type = MessageType::MsgRequestPreVote;
    let resp = w.process(&msg);
    assert!(matches!(resp, Some(WitnessResponse::VoteGrant(true))));
    assert_eq!(w.vote, 0);
}

#[test]
fn test_witness_append() {
    let mut w = Witness::new(3);
    w.term = 1;
    w.last_log_index = 4;

    let mut entry = Entry::default();
    entry.index = 5;
    entry.term = 1;
    entry.subterm = 0;

    let mut msg = WitnessMessage::default();
    msg.from = 1;
    msg.term = 1;
    msg.msg_type = MessageType::MsgAppend;
    msg.last_log_index = 5;
    msg.last_log_term = 1;
    msg.entries = vec![entry];
    msg.commit = 3;

    let resp = w.process(&msg);
    assert!(matches!(resp, Some(WitnessResponse::Persist(_))));
    assert_eq!(w.last_log_index, 5);
    assert_eq!(w.commit, 3);
}

#[test]
fn test_witness_append_no_regression() {
    let mut w = Witness::new(3);
    w.term = 1;
    w.last_log_index = 10;
    w.last_log_term = 2;
    w.last_log_subterm = 1;

    let msg = make_append_msg(1, 1, &[(3, 1, 0), (4, 1, 0)], 2);
    let resp = w.process(&msg);
    assert!(matches!(resp, Some(WitnessResponse::Persist(_))));
    assert_eq!(w.last_log_index, 10);
    assert_eq!(w.last_log_term, 2);
    assert_eq!(w.last_log_subterm, 1);
}

#[test]
fn test_witness_append_forward_progress() {
    let mut w = Witness::new(3);
    w.term = 1;
    w.last_log_index = 5;
    w.last_log_term = 1;
    w.last_log_subterm = 0;

    let msg = make_append_msg(1, 1, &[(6, 1, 1), (7, 1, 1)], 4);
    let resp = w.process(&msg);
    assert!(matches!(resp, Some(WitnessResponse::Persist(_))));
    assert_eq!(w.last_log_index, 7);
    assert_eq!(w.last_log_term, 1);
    assert_eq!(w.last_log_subterm, 1);
}

#[test]
fn test_witness_append_overlapping_no_regression() {
    let mut w = Witness::new(3);
    w.term = 1;
    w.last_log_index = 5;

    let msg = make_append_msg(1, 1, &[(3, 1, 0), (4, 1, 0), (8, 1, 0)], 0);
    let resp = w.process(&msg);
    assert!(matches!(resp, Some(WitnessResponse::Persist(_))));
    assert_eq!(w.last_log_index, 8);
}

#[test]
fn test_witness_append_empty_entries() {
    let mut w = Witness::new(3);
    w.term = 1;
    w.last_log_index = 5;

    let mut msg = WitnessMessage::default();
    msg.from = 1;
    msg.term = 1;
    msg.msg_type = MessageType::MsgAppend;
    msg.commit = 3;

    let resp = w.process(&msg);
    assert!(matches!(resp, Some(WitnessResponse::Persist(_))));
    assert_eq!(w.last_log_index, 5);
    assert_eq!(w.commit, 3);
}

#[test]
fn test_witness_append_stale_term_returns_stale_term() {
    let mut w = Witness::new(3);
    w.term = 3;
    w.last_log_index = 5;

    let msg = make_append_msg(1, 2, &[(6, 2, 0)], 0);
    let resp = w.process(&msg);
    assert!(matches!(resp, Some(WitnessResponse::StaleTerm(3))));
    assert_eq!(w.last_log_index, 5);
}

#[test]
fn test_witness_heartbeat_updates_commit() {
    let mut w = Witness::new(3);
    w.term = 2;
    w.commit = 3;

    let mut msg = WitnessMessage::default();
    msg.from = 1;
    msg.term = 2;
    msg.msg_type = MessageType::MsgHeartbeat;
    msg.commit = 5;

    let resp = w.process(&msg);
    assert!(matches!(resp, Some(WitnessResponse::Persist(_))));
    assert_eq!(w.commit, 5);
    assert_eq!(w.lead, 1);
}

#[test]
fn test_witness_heartbeat_higher_term_resets_vote() {
    let mut w = Witness::new(3);
    w.term = 2;
    w.vote = 1;

    let mut msg = WitnessMessage::default();
    msg.from = 2;
    msg.term = 3;
    msg.msg_type = MessageType::MsgHeartbeat;

    let resp = w.process(&msg);
    assert!(matches!(resp, Some(WitnessResponse::Persist(_))));
    assert_eq!(w.term, 3);
    assert_eq!(w.vote, 0);
    assert_eq!(w.lead, 2);
}

#[test]
fn test_witness_heartbeat_stale_returns_stale_term() {
    let mut w = Witness::new(3);
    w.term = 5;

    let mut msg = WitnessMessage::default();
    msg.from = 1;
    msg.term = 3;
    msg.msg_type = MessageType::MsgHeartbeat;

    let resp = w.process(&msg);
    assert!(matches!(resp, Some(WitnessResponse::StaleTerm(5))));
}

#[test]
fn test_witness_heartbeat_commit_never_regresses() {
    let mut w = Witness::new(3);
    w.term = 2;
    w.commit = 10;

    let mut msg = WitnessMessage::default();
    msg.from = 1;
    msg.term = 2;
    msg.msg_type = MessageType::MsgHeartbeat;
    msg.commit = 5;

    let resp = w.process(&msg);
    assert!(matches!(resp, Some(WitnessResponse::Persist(_))));
    assert_eq!(w.commit, 10);
}

#[test]
fn test_witness_restore_and_serialize() {
    let mut w = Witness::new(3);
    w.term = 5;
    w.vote = 1;
    w.last_log_index = 100;
    w.last_log_term = 4;
    w.last_log_subterm = 3;
    w.commit = 50;
    w.lead = 1;
    w.replication_set = vec![1, 2].into_iter().collect();

    let hs = w.to_hard_state();

    let mut w2 = Witness::new(3);
    w2.restore(&hs);

    assert_eq!(w2.term, 5);
    assert_eq!(w2.vote, 1);
    assert_eq!(w2.last_log_index, 100);
    assert_eq!(w2.last_log_term, 4);
    assert_eq!(w2.last_log_subterm, 3);
    assert_eq!(w2.commit, 50);
    assert_eq!(w2.lead, 1);
    assert_eq!(w2.replication_set, vec![1, 2].into_iter().collect());
}

#[test]
fn test_witness_unknown_message_type_ignored() {
    let mut w = Witness::new(3);
    w.term = 1;

    let mut msg = WitnessMessage::default();
    msg.from = 1;
    msg.term = 2;
    msg.msg_type = MessageType::MsgPropose;

    let resp = w.process(&msg);
    assert!(resp.is_none());
}

#[test]
fn test_witness_append_updates_replication_set() {
    let mut w = Witness::new(3);
    w.term = 1;
    w.replication_set = vec![1, 2, 3].into_iter().collect();

    let mut msg = make_append_msg(1, 1, &[(5, 1, 0)], 0);
    msg.replication_set_incoming = vec![1, 2];
    let resp = w.process(&msg);
    assert!(matches!(resp, Some(WitnessResponse::Persist(_))));
    assert_eq!(w.replication_set, vec![1, 2].into_iter().collect());
}

#[test]
fn test_witness_initial_state() {
    let w = Witness::new(5);
    assert_eq!(w.id, 5);
    assert_eq!(w.term, 0);
    assert_eq!(w.vote, 0);
    assert_eq!(w.last_log_index, 0);
    assert_eq!(w.last_log_term, 0);
    assert_eq!(w.last_log_subterm, 0);
    assert_eq!(w.commit, 0);
    assert_eq!(w.lead, 0);
    assert!(w.replication_set.is_empty());
}

#[test]
fn test_witness_pollution_lagging_voter_granted() {
    let mut w = Witness::new(3);
    w.term = 7;
    w.last_log_term = 8;
    w.last_log_index = 4053;
    w.last_log_subterm = 1;
    w.replication_set = vec![1, 2, 3].into_iter().collect();

    let msg = make_vote_msg(2, 8, 8, 1, 4051, &[1, 2], &[true, true]);
    let resp = w.process(&msg);
    assert!(
        matches!(resp, Some(WitnessResponse::VoteGrant(true))),
        "lagging voter with same (term, subterm) must be granted despite lower index"
    );
}

#[test]
fn test_witness_vote_higher_term_wins_over_stale_witness() {
    let mut w = Witness::new(278);
    w.term = 7;
    w.last_log_term = 0;
    w.last_log_subterm = 0;
    w.last_log_index = 0;

    let msg = make_vote_msg(277, 7, 6, 0, 5, &[276, 277], &[false, true]);
    let resp = w.process(&msg);
    assert!(
        matches!(resp, Some(WitnessResponse::VoteGrant(true))),
        "candidate with higher last_log_term (6 > 0) must get grant even with empty replication_set"
    );
}

#[test]
fn test_witness_prevote_higher_term_empty_replication_set() {
    let mut w = Witness::new(278);
    w.term = 7;
    w.last_log_term = 0;
    w.last_log_subterm = 0;
    w.last_log_index = 0;
    w.replication_set = HashSet::new();

    let mut msg = make_vote_msg(277, 7, 6, 0, 5, &[276, 277], &[false, true]);
    msg.msg_type = MessageType::MsgRequestPreVote;

    let resp = w.process(&msg);
    println!("\n=== pre-vote ===");
    println!("term=7, last_log_term=0, last_log_subterm=0");
    println!("msg term=7, msg last_log_term=6, msg last_log_subterm=0");
    println!("result: {:?}", resp);

    assert!(
        matches!(resp, Some(WitnessResponse::VoteGrant(true))),
        "pre-vote with higher last_log_term (6 > 0) must grant even with empty replication_set"
    );
}

#[test]
fn test_witness_re_election_without_append() {
    let mut w = Witness::new(278);

    let mut msg1 = make_vote_msg(277, 6, 5, 0, 4, &[277], &[true]);
    msg1.msg_type = MessageType::MsgRequestPreVote;
    let resp1 = w.process(&msg1);
    println!("\n=== Step 1: First pre-vote ===");
    println!("result: {:?}", resp1);
    assert!(matches!(resp1, Some(WitnessResponse::VoteGrant(true))));
    println!(
        "After pre-vote: term={}, last_log_term={}",
        w.term, w.last_log_term
    );

    let mut msg2 = make_vote_msg(277, 6, 5, 0, 4, &[276, 277], &[false, true]);
    msg2.msg_type = MessageType::MsgRequestVote;
    let resp2 = w.process(&msg2);
    println!("\n=== Step 2: Real vote ===");
    println!("result: {:?}", resp2);
    assert!(matches!(resp2, Some(WitnessResponse::VoteGrant(true))));
    assert_eq!(w.vote, 277);
    println!(
        "After real vote: term={}, last_log_term={}, vote={}",
        w.term, w.last_log_term, w.vote
    );
    let hs = w.to_hard_state();
    println!(
        "Persisted state: term={}, last_log_term={}, vote={}, last_log_index={}",
        hs.state.as_ref().map(|s| s.term).unwrap_or(0),
        hs.last_log_term,
        hs.state.as_ref().map(|s| s.vote).unwrap_or(0),
        hs.last_log_index
    );

    let mut msg3 = WitnessMessage::default();
    msg3.from = 276;
    msg3.msg_type = MessageType::MsgHeartbeat;
    msg3.term = 7;
    msg3.commit = 5;
    let resp3 = w.process(&msg3);
    println!("\n=== Step 3: Heartbeat ===");
    println!("result: {:?}", resp3);
    assert!(matches!(resp3, Some(WitnessResponse::Persist(_))));
    println!(
        "After heartbeat: term={}, last_log_term={}, vote={}, lead={}",
        w.term, w.last_log_term, w.vote, w.lead
    );

    let mut msg4 = make_vote_msg(277, 7, 6, 0, 5, &[276, 277], &[false, true]);
    msg4.msg_type = MessageType::MsgRequestPreVote;
    let resp4 = w.process(&msg4);
    println!("\n=== Step 4: Second pre-vote ===");
    println!("result: {:?}", resp4);
    assert!(
        matches!(resp4, Some(WitnessResponse::VoteGrant(true))),
        "Second pre-vote: candidate last_log_term=6 > witness last_log_term=0 => grant"
    );

    let mut msg5 = make_vote_msg(277, 7, 6, 0, 5, &[276, 277], &[false, true]);
    msg5.msg_type = MessageType::MsgRequestVote;
    let resp5 = w.process(&msg5);
    println!("\n=== Step 5: Second real vote ===");
    println!("result: {:?}", resp5);
    assert!(
        matches!(resp5, Some(WitnessResponse::VoteGrant(true))),
        "Second real vote: candidate last_log_term=6 > witness last_log_term=0 => grant"
    );
}

#[test]
fn test_witness_stale_committed_log_term_still_safe() {
    let mut w = Witness::new(5);
    w.term = 2;
    w.vote = 1;
    w.commit = 5;
    w.committed_log_term = 1;
    w.committed_log_subterm = 0;
    w.last_log_term = 2;
    w.last_log_subterm = 0;
    w.last_log_index = 6;
    w.replication_set = vec![1, 2, 3, 4].into_iter().collect();

    let msg = make_vote_msg(3, 3, 1, 0, 5, &[3, 4], &[true, true]);
    let resp = w.process(&msg);

    assert!(
        matches!(resp, Some(WitnessResponse::VoteGrant(false))),
        "candidate missing committed e2 (last_log_term=1 < witness last_log_term=2) \
         must be rejected even when committed_log_term is stale"
    );
}

#[test]
fn test_witness_accurate_committed_log_term_also_safe() {
    let mut w = Witness::new(5);
    w.term = 2;
    w.vote = 1;
    w.commit = 6;
    w.committed_log_term = 2;
    w.committed_log_subterm = 0;
    w.last_log_term = 2;
    w.last_log_subterm = 0;
    w.last_log_index = 6;
    w.replication_set = vec![1, 2, 3, 4].into_iter().collect();

    let msg = make_vote_msg(3, 3, 1, 0, 5, &[3, 4], &[true, true]);
    let resp = w.process(&msg);
    assert!(matches!(resp, Some(WitnessResponse::VoteGrant(false))));
}

#[test]
fn test_witness_stale_append_returns_stale_term() {
    let mut w = Witness::new(5);
    w.term = 3;

    let msg = make_append_msg(1, 2, &[(1, 2, 0)], 1);
    let resp = w.process(&msg);
    assert!(
        matches!(resp, Some(WitnessResponse::StaleTerm(t)) if t == 3),
        "stale-term append must return StaleTerm(witness_term), got {:?}",
        resp
    );
}

#[test]
fn test_witness_stale_heartbeat_returns_stale_term() {
    let mut w = Witness::new(5);
    w.term = 3;

    let mut msg = WitnessMessage::default();
    msg.from = 1;
    msg.term = 2;
    msg.msg_type = MessageType::MsgHeartbeat;
    msg.commit = 5;

    let resp = w.process(&msg);
    assert!(
        matches!(resp, Some(WitnessResponse::StaleTerm(t)) if t == 3),
        "stale-term heartbeat must return StaleTerm(witness_term), got {:?}",
        resp
    );
}

#[test]
fn restored_state_is_the_recorded_one() {
    let mut w = Witness::new(3);
    let mut msg = make_append_msg(1, 4, &[(7, 4, 2), (8, 4, 3)], 7);
    msg.replication_set_incoming = vec![1, 2, 1];
    msg.replication_set_outgoing = vec![2, 5];
    let resp = w.process(&msg);
    let Some(WitnessResponse::Persist(record)) = resp else {
        panic!("an append is persisted");
    };
    let mut copy = Witness::new(3);
    copy.restore(&record);
    assert_eq!((copy.term, copy.vote, copy.commit, copy.lead), (4, 0, 7, 1));
    assert_eq!(
        (copy.last_log_index, copy.last_log_term, copy.last_log_subterm),
        (8, 4, 3)
    );
    assert_eq!((copy.committed_log_term, copy.committed_log_subterm), (4, 2));
    assert_eq!(copy.replication_set, vec![1, 2, 5].into_iter().collect());
}

#[test]
fn commit_term_of_an_append() {
    let mut w = Witness::new(3);
    let mut msg = make_append_msg(1, 4, &[(7, 3, 1), (8, 4, 0)], 7);
    msg.commit_term = 2;
    msg.commit_subterm = 9;
    w.process(&msg);
    assert_eq!((w.commit, w.committed_log_term, w.committed_log_subterm), (7, 2, 9));

    w.process(&make_append_msg(1, 4, &[(7, 3, 1), (8, 4, 5)], 8));
    assert_eq!((w.commit, w.committed_log_term, w.committed_log_subterm), (8, 4, 5));

    w.process(&make_append_msg(1, 4, &[(9, 4, 6)], 12));
    assert_eq!((w.commit, w.committed_log_term, w.committed_log_subterm), (12, 4, 5));

    w.process(&make_append_msg(1, 4, &[(9, 1, 1)], 9));
    assert_eq!((w.commit, w.committed_log_term, w.committed_log_subterm), (12, 4, 5));
}

#[test]
fn commit_term_of_a_heartbeat() {
    let mut w = Witness::new(3);
    let mut msg = WitnessMessage::default();
    msg.from = 1;
    msg.term = 2;
    msg.msg_type = MessageType::MsgHeartbeat;
    msg.commit = 5;
    msg.commit_term = 2;
    msg.commit_subterm = 3;
    w.process(&msg);
    assert_eq!((w.commit, w.committed_log_term, w.committed_log_subterm), (5, 2, 3));
    msg.commit = 6;
    msg.commit_term = 0;
    w.process(&msg);
    assert_eq!((w.commit, w.committed_log_term, w.committed_log_subterm), (6, 2, 3));
}

#[test]
fn candidate_of_an_earlier_term_gets_no_answer() {
    let mut w = Witness::new(3);
    w.term = 5;
    let mut msg = make_vote_msg(1, 4, 9, 9, 9, &[], &[]);
    assert!(w.process(&msg).is_none());
    msg.msg_type = MessageType::MsgRequestPreVote;
    assert!(w.process(&msg).is_none());
    assert_eq!((w.term, w.vote), (5, 0));
}

#[test]
fn pre_vote_foretells_the_vote_and_changes_nothing() {
    let mut w = Witness::new(3);
    w.term = 5;
    w.vote = 2;
    w.lead = 2;
    let mut msg = make_vote_msg(1, 6, 3, 0, 8, &[1], &[true]);
    msg.msg_type = MessageType::MsgRequestPreVote;
    assert!(matches!(w.process(&msg), Some(WitnessResponse::VoteGrant(true))));
    assert_eq!((w.term, w.vote, w.lead), (5, 2, 2));
    msg.msg_type = MessageType::MsgRequestVote;
    assert!(matches!(w.process(&msg), Some(WitnessResponse::VoteGrant(true))));
    assert_eq!((w.term, w.vote, w.lead), (6, 1, 2));
}

#[test]
fn declined_vote_still_enters_the_term() {
    let mut w = Witness::new(3);
    w.term = 5;
    w.vote = 2;
    w.last_log_term = 4;
    let msg = make_vote_msg(1, 6, 3, 0, 8, &[1], &[true]);
    assert!(matches!(w.process(&msg), Some(WitnessResponse::VoteGrant(false))));
    assert_eq!((w.term, w.vote), (6, 0));
}

#[test]
fn answers_without_a_value_do_not_count() {
    let mut w = Witness::new(3);
    w.replication_set = vec![1].into_iter().collect();
    let msg = make_vote_msg(1, 1, 1, 0, 1, &[1, 2, 4], &[true, false]);
    assert!(matches!(w.process(&msg), Some(WitnessResponse::VoteGrant(true))));
}

#[test]
fn received_entries_bind_the_next_vote() {
    let mut w = Witness::new(3);
    w.process(&make_append_msg(1, 2, &[(6, 2, 1)], 0));
    let behind = make_vote_msg(2, 3, 2, 0, 9, &[2], &[true]);
    assert!(matches!(w.process(&behind), Some(WitnessResponse::VoteGrant(false))));
    let level = make_vote_msg(2, 3, 2, 1, 0, &[2], &[true]);
    assert!(matches!(w.process(&level), Some(WitnessResponse::VoteGrant(true))));
}

#[test]
fn received_entries_bind_votes_after_heartbeats() {
    let mut w = Witness::new(3);
    w.process(&make_append_msg(1, 2, &[(6, 2, 1)], 0));
    let mut heartbeat = WitnessMessage::default();
    heartbeat.from = 1;
    heartbeat.term = 4;
    heartbeat.msg_type = MessageType::MsgHeartbeat;
    heartbeat.commit = 6;
    w.process(&heartbeat);
    assert_eq!((w.last_log_index, w.last_log_term, w.last_log_subterm), (6, 2, 1));
    let behind = make_vote_msg(2, 5, 1, 9, 9, &[2], &[true]);
    assert!(matches!(w.process(&behind), Some(WitnessResponse::VoteGrant(false))));
}

fn sorted(mut ids: Vec<u64>) -> Vec<u64> {
    ids.sort();
    ids
}

#[test]
fn append_again_changes_nothing() {
    let mut w = Witness::new(3);
    w.term = 3;
    w.vote = 2;
    let mut msg = make_append_msg(1, 4, &[(7, 4, 2), (8, 4, 3)], 7);
    msg.replication_set_incoming = vec![1, 2];
    msg.replication_set_outgoing = vec![2, 5];
    let Some(WitnessResponse::Persist(first)) = w.process(&msg) else {
        panic!("an append is persisted");
    };
    let Some(WitnessResponse::Persist(second)) = w.process(&msg) else {
        panic!("an append is persisted again");
    };
    assert_eq!(first.state, second.state);
    assert_eq!((first.last_log_index, second.last_log_index), (8, 8));
    assert_eq!((first.last_log_term, second.last_log_term), (4, 4));
    assert_eq!((first.last_log_subterm, second.last_log_subterm), (3, 3));
    assert_eq!((first.committed_log_term, second.committed_log_term), (4, 4));
    assert_eq!((first.committed_log_subterm, second.committed_log_subterm), (2, 2));
    assert_eq!((first.lead, second.lead), (1, 1));
    assert_eq!(sorted(first.replication_set), vec![1, 2, 5]);
    assert_eq!(sorted(second.replication_set), vec![1, 2, 5]);
    assert_eq!((w.term, w.vote, w.commit), (4, 0, 7));
}

#[test]
fn declined_request_is_declined_again() {
    let mut w = Witness::new(3);
    w.term = 5;
    w.last_log_term = 4;
    let msg = make_vote_msg(1, 6, 3, 0, 8, &[1], &[true]);
    for _ in 0..2 {
        assert!(matches!(w.process(&msg), Some(WitnessResponse::VoteGrant(false))));
        assert_eq!((w.term, w.vote), (6, 0));
    }
}

#[test]
fn overlapping_append_does_not_loosen_the_vote() {
    let mut w = Witness::new(3);
    w.process(&make_append_msg(1, 2, &[(6, 2, 1)], 0));
    w.process(&make_append_msg(1, 2, &[], 6));
    w.process(&make_append_msg(1, 2, &[(5, 1, 0), (6, 1, 0)], 6));
    assert_eq!((w.last_log_index, w.last_log_term, w.last_log_subterm), (6, 2, 1));
    let behind = make_vote_msg(2, 3, 2, 0, 9, &[2], &[true]);
    assert!(matches!(w.process(&behind), Some(WitnessResponse::VoteGrant(false))));
}

#[test]
fn nothing_but_term_vote_log_and_set_decides() {
    let mut plain = Witness::new(3);
    plain.term = 5;
    plain.last_log_term = 4;
    plain.last_log_subterm = 1;
    plain.replication_set = vec![1, 2].into_iter().collect();
    let cases = [(5, 4, 1, 1), (5, 4, 0, 1), (6, 5, 0, 4), (4, 9, 9, 1)];
    for (term, last_term, last_subterm, voter) in cases {
        let mut other = Witness::new(8);
        other.restore(&plain.to_hard_state());
        other.last_log_index = 77;
        other.commit = 66;
        other.committed_log_term = 9;
        other.committed_log_subterm = 9;
        other.lead = 2;
        let mut first = Witness::new(3);
        first.restore(&plain.to_hard_state());

        let msg1 = make_vote_msg(1, term, last_term, last_subterm, 10, &[voter], &[true]);
        let (ids, vals) = ([voter, 9], [true, false]);
        let mut msg2 = make_vote_msg(1, term, last_term, last_subterm, 0, &ids, &vals);
        msg2.commit = 50;
        let (r1, r2) = (first.process(&msg1), other.process(&msg2));
        assert_eq!(format!("{:?}", r1), format!("{:?}", r2));
        assert_eq!((first.term, first.vote), (other.term, other.vote));
    }
}

#[test]
fn second_candidate_is_not_granted_after_other_messages() {
    let mut w = Witness::new(3);
    let first = make_vote_msg(1, 5, 3, 2, 10, &[1], &[true]);
    assert!(matches!(w.process(&first), Some(WitnessResponse::VoteGrant(true))));
    w.process(&make_append_msg(1, 5, &[(11, 5, 0)], 3));
    let mut heartbeat = WitnessMessage::default();
    heartbeat.from = 1;
    heartbeat.term = 5;
    heartbeat.msg_type = MessageType::MsgHeartbeat;
    w.process(&heartbeat);
    let second = make_vote_msg(2, 5, 9, 0, 10, &[2], &[true]);
    assert!(matches!(w.process(&second), Some(WitnessResponse::VoteGrant(false))));
    heartbeat.term = 6;
    w.process(&heartbeat);
    assert!(w.process(&second).is_none());
}
