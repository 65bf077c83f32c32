//! What callers of a witness see, on the fields of the witness before and after a call.
use vstd::prelude::*;

use crate::eraftpb::{HardState, WitnessHardState, WitnessMessage};
use crate::witness::effects;
use crate::witness::{Witness, WitnessResponse};

verus! {

/// A new witness knows its identifier and nothing else.
pub proof fn law_new(id: u64, w: Witness)
    requires
        call_ensures(Witness::new, (id,), w),
    ensures
        w.id == id,
        w.term == 0 && w.vote == 0 && w.lead == 0,
        w.last_log_index == 0 && w.last_log_term == 0 && w.last_log_subterm == 0,
        w.commit == 0 && w.committed_log_term == 0 && w.committed_log_subterm == 0,
        forall|n: u64| !#[trigger] w.replication_set@.contains(n),
{
    effects::law_fresh_knows_nothing(id);
    effects::law_view_shows_fields(w);
}

/// A record holds each field of the witness it was made from, and its replication set, each node
/// once.
pub proof fn law_to_hard_state(w: &Witness, record: WitnessHardState)
    requires
        call_ensures(Witness::to_hard_state, (w,), record),
    ensures
        record.state == Some(HardState { term: w.term, vote: w.vote, commit: w.commit }),
        record.last_log_index == w.last_log_index,
        record.last_log_term == w.last_log_term,
        record.last_log_subterm == w.last_log_subterm,
        record.committed_log_term == w.committed_log_term,
        record.committed_log_subterm == w.committed_log_subterm,
        record.lead == w.lead,
        forall|id: u64|
            record.replication_set@.contains(id) <==> #[trigger] w.replication_set@.contains(id),
        record.replication_set@.no_duplicates(),
{
    effects::law_view_shows_fields(*w);
    effects::law_record_holds_each_field(w@, record);
}

/// Restoring takes each field from the record, and 0 for what it lacks; the identifier stays.
pub proof fn law_restore(w: &mut Witness, record: &WitnessHardState)
    requires
        call_ensures(Witness::restore, (w, record), ()),
    ensures
        final(w).id == old(w).id,
        match record.state {
            Some(s) => final(w).term == s.term && final(w).vote == s.vote && final(w).commit
                == s.commit,
            None => final(w).term == 0 && final(w).vote == 0 && final(w).commit == 0,
        },
        final(w).last_log_index == record.last_log_index,
        final(w).last_log_term == record.last_log_term,
        final(w).last_log_subterm == record.last_log_subterm,
        final(w).committed_log_term == record.committed_log_term,
        final(w).committed_log_subterm == record.committed_log_subterm,
        final(w).lead == record.lead,
        forall|id: u64|
            final(w).replication_set@.contains(id) <==> #[trigger] record.replication_set@.contains(
                id,
            ),
{
    effects::law_view_shows_fields(*old(w));
    effects::law_view_shows_fields(*final(w));
    effects::law_restore_takes_each_field(old(w)@, *record);
}

/// A witness that is restored from the record of another, of the same identifier, is in the state
/// of that one.
pub proof fn law_restore_after_to_hard_state(
    first: &Witness,
    record: &WitnessHardState,
    second: &mut Witness,
)
    requires
        call_ensures(Witness::to_hard_state, (first,), *record),
        call_ensures(Witness::restore, (second, record), ()),
        old(second).id == first.id,
    ensures
        final(second)@ == first@,
        final(second).term == first.term && final(second).vote == first.vote,
        final(second).commit == first.commit && final(second).lead == first.lead,
        final(second).last_log_index == first.last_log_index,
        final(second).last_log_term == first.last_log_term,
        final(second).last_log_subterm == first.last_log_subterm,
        final(second).committed_log_term == first.committed_log_term,
        final(second).committed_log_subterm == first.committed_log_subterm,
        final(second).replication_set@ == first.replication_set@,
{
    law_to_hard_state(first, *record);
    law_restore(second, record);
    assert(final(second).replication_set@ =~= first.replication_set@) by {
        assert forall|id: u64|
            final(second).replication_set@.contains(id) <==> first.replication_set@.contains(
                id,
            ) by {
            assert(record.replication_set@.contains(id) <==> first.replication_set@.contains(id));
        }
    }
}

/// An append or a heartbeat that is not of an earlier term: the sender leads, in its term; the vote
/// carries over only within a term; the commit index moves forward or stays; and the answer is the
/// new state to persist.
pub proof fn law_leader_is_followed(
    w: &mut Witness,
    msg: &WitnessMessage,
    response: Option<WitnessResponse>,
)
    requires
        call_ensures(Witness::process, (w, msg), response),
        msg.msg_type is MsgAppend || msg.msg_type is MsgHeartbeat,
        msg.term >= old(w).term,
    ensures
        final(w).id == old(w).id,
        final(w).lead == msg.from,
        final(w).term == msg.term,
        final(w).vote == if msg.term > old(w).term {
            0
        } else {
            old(w).vote
        },
        final(w).commit == if msg.commit > old(w).commit {
            msg.commit
        } else {
            old(w).commit
        },
        response matches Some(WitnessResponse::Persist(record)) && {
            &&& record.state == Some(
                HardState { term: final(w).term, vote: final(w).vote, commit: final(w).commit },
            )
            &&& record.lead == final(w).lead
            &&& record.last_log_index == final(w).last_log_index
            &&& record.last_log_term == final(w).last_log_term
            &&& record.last_log_subterm == final(w).last_log_subterm
            &&& record.committed_log_term == final(w).committed_log_term
            &&& record.committed_log_subterm == final(w).committed_log_subterm
            &&& forall|id: u64|
                record.replication_set@.contains(id)
                    <==> #[trigger] final(w).replication_set@.contains(id)
        },
{
    effects::law_view_shows_fields(*old(w));
    effects::law_view_shows_fields(*final(w));
    effects::law_sender_leads(old(w)@, *msg, response);
    effects::law_commit_moves_forward(old(w)@, *msg, response);
    effects::law_new_state_is_persisted(old(w)@, *msg, response);
}

/// An append that is not of an earlier term: the last log position is that of the last entry, where
/// that is further on; the replication set is made of both lists.
pub proof fn law_append(w: &mut Witness, msg: &WitnessMessage, response: Option<WitnessResponse>)
    requires
        call_ensures(Witness::process, (w, msg), response),
        msg.msg_type is MsgAppend,
        msg.term >= old(w).term,
    ensures
        ({
            let len = msg.entries@.len();
            if len > 0 && msg.entries@[len - 1].index > old(w).last_log_index {
                &&& final(w).last_log_index == msg.entries@[len - 1].index
                &&& final(w).last_log_term == msg.entries@[len - 1].term
                &&& final(w).last_log_subterm == msg.entries@[len - 1].subterm
            } else {
                &&& final(w).last_log_index == old(w).last_log_index
                &&& final(w).last_log_term == old(w).last_log_term
                &&& final(w).last_log_subterm == old(w).last_log_subterm
            }
        }),
        forall|id: u64| #[trigger]
            final(w).replication_set@.contains(id) <==> msg.replication_set_incoming@.contains(id)
                || msg.replication_set_outgoing@.contains(id),
{
    effects::law_view_shows_fields(*old(w));
    effects::law_view_shows_fields(*final(w));
    effects::law_append_moves_log(old(w)@, *msg, response);
    assert forall|id: u64| #[trigger]
        final(w).replication_set@.contains(id) <==> msg.replication_set_incoming@.contains(id)
            || msg.replication_set_outgoing@.contains(id) by {
        effects::law_append_replaces_replication_set(old(w)@, *msg, response, id);
    }
}

/// Where the commit index moves, what is known of the entry there is what the sender says, or else,
/// for an append, what the first entry at that index says. It stays where neither is there, and
/// where the commit index does.
pub proof fn law_committed_entry(
    w: &mut Witness,
    msg: &WitnessMessage,
    response: Option<WitnessResponse>,
)
    requires
        call_ensures(Witness::process, (w, msg), response),
        msg.msg_type is MsgAppend || msg.msg_type is MsgHeartbeat,
        msg.term >= old(w).term,
    ensures
        msg.commit > old(w).commit && msg.commit_term != 0 ==> {
            &&& final(w).committed_log_term == msg.commit_term
            &&& final(w).committed_log_subterm == msg.commit_subterm
        },
        msg.commit > old(w).commit && msg.commit_term == 0 && msg.msg_type is MsgAppend ==> forall|
            i: int,
        |
            0 <= i < msg.entries@.len() && (#[trigger] msg.entries@[i]).index == msg.commit && (
            forall|j: int| 0 <= j < i ==> (#[trigger] msg.entries@[j]).index != msg.commit) ==> {
                &&& final(w).committed_log_term == msg.entries@[i].term
                &&& final(w).committed_log_subterm == msg.entries@[i].subterm
            },
        msg.commit <= old(w).commit || (msg.commit_term == 0 && (msg.msg_type is MsgHeartbeat
            || forall|i: int|
            0 <= i < msg.entries@.len() ==> (#[trigger] msg.entries@[i]).index != msg.commit))
            ==> {
            &&& final(w).committed_log_term == old(w).committed_log_term
            &&& final(w).committed_log_subterm == old(w).committed_log_subterm
        },
{
    effects::law_view_shows_fields(*old(w));
    effects::law_view_shows_fields(*final(w));
    effects::law_commit_moves_forward(old(w)@, *msg, response);
}

/// A heartbeat that is not of an earlier term leaves the log and the replication set as they are.
pub proof fn law_heartbeat(
    w: &mut Witness,
    msg: &WitnessMessage,
    response: Option<WitnessResponse>,
)
    requires
        call_ensures(Witness::process, (w, msg), response),
        msg.msg_type is MsgHeartbeat,
        msg.term >= old(w).term,
    ensures
        final(w).last_log_index == old(w).last_log_index,
        final(w).last_log_term == old(w).last_log_term,
        final(w).last_log_subterm == old(w).last_log_subterm,
        final(w).replication_set@ == old(w).replication_set@,
{
    effects::law_view_shows_fields(*old(w));
    effects::law_view_shows_fields(*final(w));
    effects::law_only_append_moves_log(old(w)@, *msg);
}

/// A vote or pre-vote request that is not of an earlier term is granted exactly when the
/// candidate's last entry is no older, by term and then subterm, than the last one received here,
/// each voter that it reports in its favour is in the replication set or the set is empty, and the
/// term is a new one, or one without a vote for somebody else.
pub proof fn law_request(w: &mut Witness, msg: &WitnessMessage, response: Option<WitnessResponse>)
    requires
        call_ensures(Witness::process, (w, msg), response),
        msg.msg_type is MsgRequestVote || msg.msg_type is MsgRequestPreVote,
        msg.term >= old(w).term,
    ensures
        response matches Some(WitnessResponse::VoteGrant(granted)) && (granted <==> {
            &&& msg.last_log_term > old(w).last_log_term || (msg.last_log_term
                == old(w).last_log_term && msg.last_log_subterm >= old(w).last_log_subterm)
            &&& (forall|id: u64| !#[trigger] old(w).replication_set@.contains(id)) || forall|i: int|
                0 <= i < msg.vote_ids@.len() && i < msg.vote_vals@.len() && msg.vote_vals@[i]
                    ==> old(w).replication_set@.contains(#[trigger] msg.vote_ids@[i])
            &&& msg.term > old(w).term || old(w).vote == 0 || old(w).vote == msg.from
        }),
{
    effects::law_view_shows_fields(*old(w));
    effects::law_granted_exactly_when_due(old(w)@, *msg, response);
}

/// A request changes at most the term and the vote: a vote request makes its term the current one,
/// and the vote its sender's where it is granted, nobody's in a new term where it is not. A
/// pre-vote request changes neither.
pub proof fn law_request_changes(
    w: &mut Witness,
    msg: &WitnessMessage,
    response: Option<WitnessResponse>,
)
    requires
        call_ensures(Witness::process, (w, msg), response),
        msg.msg_type is MsgRequestVote || msg.msg_type is MsgRequestPreVote,
        msg.term >= old(w).term,
    ensures
        msg.msg_type is MsgRequestVote ==> {
            &&& final(w).term == msg.term
            &&& final(w).vote == if response == Some(WitnessResponse::VoteGrant(true)) {
                msg.from
            } else if msg.term > old(w).term {
                0
            } else {
                old(w).vote
            }
        },
        msg.msg_type is MsgRequestPreVote ==> final(w).term == old(w).term && final(w).vote
            == old(w).vote,
        final(w).id == old(w).id && final(w).lead == old(w).lead,
        final(w).last_log_index == old(w).last_log_index,
        final(w).last_log_term == old(w).last_log_term,
        final(w).last_log_subterm == old(w).last_log_subterm,
        final(w).commit == old(w).commit,
        final(w).committed_log_term == old(w).committed_log_term,
        final(w).committed_log_subterm == old(w).committed_log_subterm,
        final(w).replication_set@ == old(w).replication_set@,
{
    effects::law_view_shows_fields(*old(w));
    effects::law_view_shows_fields(*final(w));
    effects::law_only_leaders_set_leader_and_commit(old(w)@, *msg);
    effects::law_only_append_moves_log(old(w)@, *msg);
    if msg.msg_type is MsgRequestVote {
        effects::law_vote_is_recorded(old(w)@, *msg, response);
    }
}

/// A message of an earlier term, or of a kind that is not for witnesses, changes nothing. A leader
/// of an earlier term is told the current one, nobody else is answered.
pub proof fn law_unheeded(w: &mut Witness, msg: &WitnessMessage, response: Option<WitnessResponse>)
    requires
        call_ensures(Witness::process, (w, msg), response),
        msg.term < old(w).term || !(msg.msg_type is MsgAppend || msg.msg_type is MsgHeartbeat
            || msg.msg_type is MsgRequestVote || msg.msg_type is MsgRequestPreVote),
    ensures
        final(w)@ == old(w)@,
        final(w).term == old(w).term && final(w).vote == old(w).vote,
        msg.msg_type is MsgAppend || msg.msg_type is MsgHeartbeat ==> response == Some(
            WitnessResponse::StaleTerm(old(w).term),
        ),
        !(msg.msg_type is MsgAppend || msg.msg_type is MsgHeartbeat) ==> response is None,
{
    effects::law_view_shows_fields(*old(w));
    effects::law_view_shows_fields(*final(w));
}

/// Of two vote requests of one term that a witness handles one after the other, from two
/// candidates, one at most is granted.
pub proof fn law_second_candidate_is_declined(
    w: &mut Witness,
    first: &WitnessMessage,
    answer: Option<WitnessResponse>,
    later: &mut Witness,
    second: &WitnessMessage,
    response: Option<WitnessResponse>,
)
    requires
        call_ensures(Witness::process, (w, first), answer),
        call_ensures(Witness::process, (later, second), response),
        *old(later) == *final(w),
        first.msg_type is MsgRequestVote,
        second.msg_type is MsgRequestVote,
        first.term == second.term,
        first.from != second.from,
        first.from != 0,
        answer == Some(WitnessResponse::VoteGrant(true)),
    ensures
        response == Some(WitnessResponse::VoteGrant(false)),
{
    if first.term < old(w).term {
        law_unheeded(w, first, answer);
    } else {
        law_request_changes(w, first, answer);
        law_request(later, second, response);
    }
}

}
