//! What each message does to a witness and what it is answered, field by field.
use vstd::prelude::*;

use crate::eraftpb::{Entry, HardState, WitnessHardState, WitnessMessage};
use crate::witness;
use crate::witness::{Witness, WitnessResponse, WitnessView};

verus! {

/// The view of a witness shows each of its fields.
pub proof fn law_view_shows_fields(w: Witness)
    ensures
        w@.id == w.id,
        w@.term == w.term,
        w@.vote == w.vote,
        w@.last_log_index == w.last_log_index,
        w@.last_log_term == w.last_log_term,
        w@.last_log_subterm == w.last_log_subterm,
        w@.commit == w.commit,
        w@.committed_log_term == w.committed_log_term,
        w@.committed_log_subterm == w.committed_log_subterm,
        w@.lead == w.lead,
        w@.replication_set == w.replication_set@,
{
}

/// A new witness knows its identifier and nothing else.
pub proof fn law_fresh_knows_nothing(id: u64)
    ensures
        ({
            let w = WitnessView::fresh(id);
            &&& w.id == id
            &&& w.term == 0 && w.vote == 0 && w.lead == 0
            &&& w.last_log_index == 0 && w.last_log_term == 0 && w.last_log_subterm == 0
            &&& w.commit == 0 && w.committed_log_term == 0 && w.committed_log_subterm == 0
            &&& forall|n: u64| !w.replication_set.contains(n)
        }),
{
}

/// A record holds each field of the state it was made from, and lists the replication set, each
/// node once.
pub proof fn law_record_holds_each_field(w: WitnessView, record: WitnessHardState)
    requires
        w.recorded_as(record),
    ensures
        record.state == Some(HardState { term: w.term, vote: w.vote, commit: w.commit }),
        record.last_log_index == w.last_log_index,
        record.last_log_term == w.last_log_term,
        record.last_log_subterm == w.last_log_subterm,
        record.committed_log_term == w.committed_log_term,
        record.committed_log_subterm == w.committed_log_subterm,
        record.lead == w.lead,
        forall|id: u64|
            record.replication_set@.contains(id) <==> #[trigger] w.replication_set.contains(id),
        forall|i: int, j: int|
            0 <= i < j < record.replication_set@.len() ==> record.replication_set@[i]
                != record.replication_set@[j],
{
    assert forall|id: u64|
        record.replication_set@.contains(id) <==> #[trigger] w.replication_set.contains(id) by {
        assert(record.replication_set@.to_set().contains(id)
            <==> record.replication_set@.contains(id));
    }
}

/// Restoring takes each field from the record, and the identifier from nowhere. A record without
/// term, vote and commit index counts as one where they are 0.
pub proof fn law_restore_takes_each_field(w: WitnessView, record: WitnessHardState)
    ensures
        ({
            let n = w.restored(record);
            &&& n.id == w.id
            &&& match record.state {
                Some(s) => n.term == s.term && n.vote == s.vote && n.commit == s.commit,
                None => n.term == 0 && n.vote == 0 && n.commit == 0,
            }
            &&& n.last_log_index == record.last_log_index
            &&& n.last_log_term == record.last_log_term
            &&& n.last_log_subterm == record.last_log_subterm
            &&& n.committed_log_term == record.committed_log_term
            &&& n.committed_log_subterm == record.committed_log_subterm
            &&& n.lead == record.lead
            &&& forall|id: u64|
                n.replication_set.contains(id) <==> #[trigger] record.replication_set@.contains(id)
        }),
{
}

/// After an append or a heartbeat that is not of an earlier term, the sender is the leader and its
/// term the current one, whoever led before, and the record to persist says so. A vote carries over
/// only within a term.
pub proof fn law_sender_leads(
    w: WitnessView,
    msg: WitnessMessage,
    response: Option<WitnessResponse>,
)
    requires
        msg.msg_type is MsgAppend || msg.msg_type is MsgHeartbeat,
        msg.term >= w.term,
        w.answers(msg, response),
    ensures
        ({
            let n = w.processed(msg);
            let vote: u64 = if msg.term == w.term {
                w.vote
            } else {
                0
            };
            &&& n.id == w.id
            &&& n.lead == msg.from
            &&& n.term == msg.term
            &&& n.vote == vote
            &&& response matches Some(WitnessResponse::Persist(record)) && {
                &&& record.lead == msg.from
                &&& record.state matches Some(s) && {
                    &&& s.term == msg.term
                    &&& s.vote == vote
                    &&& s.commit >= msg.commit && s.commit >= w.commit
                    &&& s.commit == msg.commit || s.commit == w.commit
                }
            }
        }),
{
}

/// After an append that is not of an earlier term, the replication set is made of the two lists in
/// it and nobody else, and the record to persist says so.
pub proof fn law_append_replaces_replication_set(
    w: WitnessView,
    msg: WitnessMessage,
    response: Option<WitnessResponse>,
    id: u64,
)
    requires
        msg.msg_type is MsgAppend,
        msg.term >= w.term,
        w.answers(msg, response),
    ensures
        w.processed(msg).replication_set.contains(id) <==> msg.replication_set_incoming@.contains(
            id,
        ) || msg.replication_set_outgoing@.contains(id),
        response matches Some(WitnessResponse::Persist(record)) && (
        record.replication_set@.contains(id) <==> msg.replication_set_incoming@.contains(id)
            || msg.replication_set_outgoing@.contains(id)),
{
    if let Some(WitnessResponse::Persist(record)) = response {
        law_record_holds_each_field(w.processed(msg), record);
        assert(w.processed(msg).replication_set.contains(id)
            <==> msg.replication_set_incoming@.contains(id)
            || msg.replication_set_outgoing@.contains(id));
    }
}

/// An append that is not of an earlier term moves the last log position to its last entry, where
/// that is further on, and leaves it where it is otherwise. The record to persist says so.
pub proof fn law_append_moves_log(
    w: WitnessView,
    msg: WitnessMessage,
    response: Option<WitnessResponse>,
)
    requires
        msg.msg_type is MsgAppend,
        msg.term >= w.term,
        w.answers(msg, response),
    ensures
        ({
            let n = w.processed(msg);
            let len = msg.entries@.len();
            &&& len > 0 && msg.entries@[len - 1].index > w.last_log_index ==> {
                &&& n.last_log_index == msg.entries@[len - 1].index
                &&& n.last_log_term == msg.entries@[len - 1].term
                &&& n.last_log_subterm == msg.entries@[len - 1].subterm
            }
            &&& len == 0 || msg.entries@[len - 1].index <= w.last_log_index ==> {
                &&& n.last_log_index == w.last_log_index
                &&& n.last_log_term == w.last_log_term
                &&& n.last_log_subterm == w.last_log_subterm
            }
            &&& response matches Some(WitnessResponse::Persist(record)) && {
                &&& record.last_log_index == n.last_log_index
                &&& record.last_log_term == n.last_log_term
                &&& record.last_log_subterm == n.last_log_subterm
            }
        }),
{
}

/// What is to be persisted after an append or a heartbeat is each field of the new state.
pub proof fn law_new_state_is_persisted(
    w: WitnessView,
    msg: WitnessMessage,
    response: Option<WitnessResponse>,
)
    requires
        msg.msg_type is MsgAppend || msg.msg_type is MsgHeartbeat,
        msg.term >= w.term,
        w.answers(msg, response),
    ensures
        response matches Some(WitnessResponse::Persist(record)) && ({
            let n = w.processed(msg);
            &&& record.state == Some(HardState { term: n.term, vote: n.vote, commit: n.commit })
            &&& record.last_log_index == n.last_log_index
            &&& record.last_log_term == n.last_log_term
            &&& record.last_log_subterm == n.last_log_subterm
            &&& record.committed_log_term == n.committed_log_term
            &&& record.committed_log_subterm == n.committed_log_subterm
            &&& record.lead == n.lead
            &&& forall|id: u64|
                record.replication_set@.contains(id) <==> #[trigger] n.replication_set.contains(id)
        }),
{
    if let Some(WitnessResponse::Persist(record)) = response {
        law_record_holds_each_field(w.processed(msg), record);
    }
}

/// Nothing but an append moves the log or changes the replication set.
pub proof fn law_only_append_moves_log(w: WitnessView, msg: WitnessMessage)
    requires
        !(msg.msg_type is MsgAppend) || msg.term < w.term,
    ensures
        w.processed(msg).last_log_index == w.last_log_index,
        w.processed(msg).last_log_term == w.last_log_term,
        w.processed(msg).last_log_subterm == w.last_log_subterm,
        w.processed(msg).replication_set == w.replication_set,
{
}

/// The first entry at a position is found; where there is none, none is.
proof fn lemma_entry_at(entries: Seq<Entry>, index: u64)
    ensures
        forall|i: int|
            0 <= i < entries.len() && (#[trigger] entries[i]).index == index && (forall|j: int|
                0 <= j < i ==> (#[trigger] entries[j]).index != index) ==> witness::entry_at(
                entries,
                index,
            ) == Some(entries[i]),
        (forall|i: int| 0 <= i < entries.len() ==> (#[trigger] entries[i]).index != index)
            ==> witness::entry_at(entries, index) is None,
    decreases entries.len(),
{
    if entries.len() > 0 {
        let rest = entries.drop_first();
        lemma_entry_at(rest, index);
        assert(forall|i: int| 0 <= i < rest.len() ==> rest[i] == #[trigger] entries[i + 1]);
        assert forall|i: int|
            0 <= i < entries.len() && (#[trigger] entries[i]).index == index && (forall|j: int|
                0 <= j < i ==> (#[trigger] entries[j]).index != index) implies witness::entry_at(
            entries,
            index,
        ) == Some(entries[i]) by {
            if i > 0 {
                assert(entries[0].index != index);
                assert(rest[i - 1] == entries[i]);
                assert forall|j: int| 0 <= j < i - 1 implies (#[trigger] rest[j]).index
                    != index by {
                    assert(rest[j] == entries[j + 1]);
                }
            }
        }
        if forall|i: int| 0 <= i < entries.len() ==> (#[trigger] entries[i]).index != index {
            assert(entries[0].index != index);
            assert forall|i: int| 0 <= i < rest.len() implies (#[trigger] rest[i]).index
                != index by {
                assert(rest[i] == entries[i + 1]);
            }
        }
    }
}

/// An append or a heartbeat that is not of an earlier term moves the commit index forward or leaves
/// it, and with it what is known of the entry there. That is what the sender says of the entry, or
/// else, for an append, what the first entry at that index says; it stays where neither is there.
/// The record to persist says so.
pub proof fn law_commit_moves_forward(
    w: WitnessView,
    msg: WitnessMessage,
    response: Option<WitnessResponse>,
)
    requires
        msg.msg_type is MsgAppend || msg.msg_type is MsgHeartbeat,
        msg.term >= w.term,
        w.answers(msg, response),
    ensures
        ({
            let n = w.processed(msg);
            let silent = msg.commit_term == 0;
            &&& msg.commit > w.commit ==> n.commit == msg.commit
            &&& msg.commit <= w.commit ==> {
                &&& n.commit == w.commit
                &&& n.committed_log_term == w.committed_log_term
                &&& n.committed_log_subterm == w.committed_log_subterm
            }
            &&& msg.commit > w.commit && !silent ==> {
                &&& n.committed_log_term == msg.commit_term
                &&& n.committed_log_subterm == msg.commit_subterm
            }
            &&& msg.commit > w.commit && silent && msg.msg_type is MsgAppend ==> forall|i: int|
                0 <= i < msg.entries@.len() && (#[trigger] msg.entries@[i]).index == msg.commit && (
                forall|j: int|
                    0 <= j < i ==> (#[trigger] msg.entries@[j]).index != msg.commit) ==> {
                    &&& n.committed_log_term == msg.entries@[i].term
                    &&& n.committed_log_subterm == msg.entries@[i].subterm
                }
            &&& msg.commit > w.commit && silent && (msg.msg_type is MsgHeartbeat || forall|i: int|
                0 <= i < msg.entries@.len() ==> (#[trigger] msg.entries@[i]).index != msg.commit)
                ==> {
                &&& n.committed_log_term == w.committed_log_term
                &&& n.committed_log_subterm == w.committed_log_subterm
            }
            &&& response matches Some(WitnessResponse::Persist(record)) && {
                &&& record.state matches Some(s) && s.commit == n.commit
                &&& record.committed_log_term == n.committed_log_term
                &&& record.committed_log_subterm == n.committed_log_subterm
            }
        }),
{
    lemma_entry_at(msg.entries@, msg.commit);
}

/// Nothing but an append or a heartbeat changes the leader or what is known of the commit.
pub proof fn law_only_leaders_set_leader_and_commit(w: WitnessView, msg: WitnessMessage)
    requires
        !(msg.msg_type is MsgAppend || msg.msg_type is MsgHeartbeat) || msg.term < w.term,
    ensures
        w.processed(msg).id == w.id,
        w.processed(msg).lead == w.lead,
        w.processed(msg).commit == w.commit,
        w.processed(msg).committed_log_term == w.committed_log_term,
        w.processed(msg).committed_log_subterm == w.committed_log_subterm,
{
}

/// A vote or pre-vote request that is not of an earlier term is granted exactly when the
/// candidate's last entry is no older, by term and then subterm, than the last one received here,
/// each voter that the candidate reports in its favour is in the replication set or the set is
/// empty, and the term is a new one, or one without a vote for somebody else. Otherwise it is
/// declined.
pub proof fn law_granted_exactly_when_due(
    w: WitnessView,
    msg: WitnessMessage,
    response: Option<WitnessResponse>,
)
    requires
        msg.msg_type is MsgRequestVote || msg.msg_type is MsgRequestPreVote,
        msg.term >= w.term,
        w.answers(msg, response),
    ensures
        response matches Some(WitnessResponse::VoteGrant(granted)) && (granted <==> {
            &&& msg.last_log_term > w.last_log_term || (msg.last_log_term == w.last_log_term
                && msg.last_log_subterm >= w.last_log_subterm)
            &&& (forall|id: u64| !#[trigger] w.replication_set.contains(id)) || forall|i: int|
                0 <= i < msg.vote_ids@.len() && i < msg.vote_vals@.len() && msg.vote_vals@[i]
                    ==> w.replication_set.contains(#[trigger] msg.vote_ids@[i])
            &&& msg.term > w.term || w.vote == 0 || w.vote == msg.from
        }),
{
    let granted = witness::votes_granted(msg);
    assert((forall|id: u64| !#[trigger] w.replication_set.contains(id))
        <==> w.replication_set.is_empty()) by {
        if forall|id: u64| !#[trigger] w.replication_set.contains(id) {
            assert(w.replication_set =~= Set::empty());
        }
    }
    if granted.subset_of(w.replication_set) {
        assert forall|i: int|
            0 <= i < msg.vote_ids@.len() && i < msg.vote_vals@.len()
                && msg.vote_vals@[i] implies w.replication_set.contains(
            #[trigger] msg.vote_ids@[i],
        ) by {
            assert(granted.contains(msg.vote_ids@[i]));
        }
    }
}

/// A request that is granted is granted too where the candidate's log is newer, by any number of
/// terms or subterms.
pub proof fn law_newer_log_is_granted_too(
    w: WitnessView,
    msg: WitnessMessage,
    newer: WitnessMessage,
    response: Option<WitnessResponse>,
)
    requires
        msg.msg_type is MsgRequestVote || msg.msg_type is MsgRequestPreVote,
        w.answers(msg, Some(WitnessResponse::VoteGrant(true))),
        newer.msg_type == msg.msg_type,
        newer.term == msg.term,
        newer.from == msg.from,
        newer.vote_ids@ == msg.vote_ids@,
        newer.vote_vals@ == msg.vote_vals@,
        newer.last_log_term > msg.last_log_term || (newer.last_log_term == msg.last_log_term
            && newer.last_log_subterm >= msg.last_log_subterm),
        w.answers(newer, response),
    ensures
        response == Some(WitnessResponse::VoteGrant(true)),
{
    law_granted_exactly_when_due(w, msg, Some(WitnessResponse::VoteGrant(true)));
    law_granted_exactly_when_due(w, newer, response);
}

/// A vote request that is not of an earlier term makes its term the current one. The vote goes to
/// the candidate where it is granted; where it is declined, it stays within a term and is open in a
/// new one.
pub proof fn law_vote_is_recorded(
    w: WitnessView,
    msg: WitnessMessage,
    response: Option<WitnessResponse>,
)
    requires
        msg.msg_type is MsgRequestVote,
        msg.term >= w.term,
        w.answers(msg, response),
    ensures
        w.processed(msg).term == msg.term,
        response == Some(WitnessResponse::VoteGrant(true)) ==> w.processed(msg).vote == msg.from,
        response != Some(WitnessResponse::VoteGrant(true)) ==> w.processed(msg).vote == if msg.term
            > w.term {
            0
        } else {
            w.vote
        },
{
}

/// Messages of other kinds are neither heeded nor answered.
pub proof fn law_other_messages_are_ignored(
    w: WitnessView,
    msg: WitnessMessage,
    response: Option<WitnessResponse>,
)
    requires
        !(msg.msg_type is MsgAppend),
        !(msg.msg_type is MsgHeartbeat),
        !(msg.msg_type is MsgRequestVote),
        !(msg.msg_type is MsgRequestPreVote),
        w.answers(msg, response),
    ensures
        w.processed(msg) == w,
        response is None,
{
}

}
