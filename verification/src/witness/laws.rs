//! What holds of a witness over any messages that it processes.
use vstd::prelude::*;

use crate::eraftpb::{Entry, MessageType, WitnessHardState, WitnessMessage};
use crate::witness;
use crate::witness::{WitnessResponse, WitnessView};

verus! {

/// Restoring a record gives back the state that it was made from.
pub proof fn law_restore_gives_back_recorded_state(
    w: WitnessView,
    record: WitnessHardState,
    other: WitnessView,
)
    requires
        w.recorded_as(record),
        other.id == w.id,
    ensures
        other.restored(record) == w,
{
}

/// What an answer tells the host to persist is the state that the witness is in: a witness that
/// restarts from it goes on where the first one stopped.
pub proof fn law_persisted_state_is_current(
    w: WitnessView,
    msg: WitnessMessage,
    record: WitnessHardState,
)
    requires
        w.answers(msg, Some(WitnessResponse::Persist(record))),
    ensures
        WitnessView::fresh(w.id).restored(record) == w.processed(msg),
{
}

/// Term, commit index and last log index never go back, and the identifier stays.
pub proof fn law_never_regresses(w: WitnessView, msg: WitnessMessage)
    ensures
        w.processed(msg).id == w.id,
        w.processed(msg).term >= w.term,
        w.processed(msg).commit >= w.commit,
        w.processed(msg).last_log_index >= w.last_log_index,
{
}

/// A message of an earlier term changes nothing. A leader is told the greater term; a candidate
/// gets no answer.
pub proof fn law_earlier_term_is_refused(
    w: WitnessView,
    msg: WitnessMessage,
    response: Option<WitnessResponse>,
)
    requires
        msg.term < w.term,
        w.answers(msg, response),
    ensures
        w.processed(msg) == w,
        msg.msg_type is MsgAppend || msg.msg_type is MsgHeartbeat ==> response == Some(
            WitnessResponse::StaleTerm(w.term),
        ),
        msg.msg_type is MsgRequestVote || msg.msg_type is MsgRequestPreVote ==> response is None,
{
}

/// A request for a pre-vote changes nothing, whatever it is answered.
pub proof fn law_pre_vote_changes_nothing(w: WitnessView, msg: WitnessMessage)
    requires
        msg.msg_type is MsgRequestPreVote,
    ensures
        w.processed(msg) == w,
{
}

/// A pre-vote is granted exactly where the vote would be.
pub proof fn law_pre_vote_foretells_vote(
    w: WitnessView,
    msg: WitnessMessage,
    pre: Option<WitnessResponse>,
    vote: Option<WitnessResponse>,
)
    requires
        w.answers(
            (WitnessMessage { msg_type: MessageType::MsgRequestPreVote, ..msg }),
            pre,
        ),
        w.answers((WitnessMessage { msg_type: MessageType::MsgRequestVote, ..msg }), vote),
    ensures
        pre == vote,
{
    let p = WitnessMessage { msg_type: MessageType::MsgRequestPreVote, ..msg };
    let r = WitnessMessage { msg_type: MessageType::MsgRequestVote, ..msg };
    assert(witness::votes_granted(p) =~= witness::votes_granted(r));
}

/// A vote that was cast stays as long as the term does.
pub proof fn law_vote_stays_within_term(w: WitnessView, msg: WitnessMessage)
    requires
        w.vote != 0,
        w.processed(msg).term == w.term,
    ensures
        w.processed(msg).vote == w.vote,
{
}

/// The state after a sequence of messages.
pub open spec fn after(w: WitnessView, msgs: Seq<WitnessMessage>) -> WitnessView
    decreases msgs.len(),
{
    if msgs.len() == 0 {
        w
    } else {
        after(w, msgs.drop_last()).processed(msgs.last())
    }
}

/// The witness grants the vote that the `i`th message requests.
pub open spec fn grants_vote_at(w: WitnessView, msgs: Seq<WitnessMessage>, i: int) -> bool {
    &&& 0 <= i < msgs.len()
    &&& msgs[i].msg_type is MsgRequestVote
    &&& after(w, msgs.take(i)).answers(msgs[i], Some(WitnessResponse::VoteGrant(true)))
}

proof fn lemma_after_next(w: WitnessView, msgs: Seq<WitnessMessage>, i: int)
    requires
        0 <= i < msgs.len(),
    ensures
        after(w, msgs.take(i + 1)) == after(w, msgs.take(i)).processed(msgs[i]),
{
    assert(msgs.take(i + 1).drop_last() == msgs.take(i));
}

/// From a granted vote on, the term is later or the vote is that one.
proof fn lemma_vote_remembered(w: WitnessView, msgs: Seq<WitnessMessage>, i: int, k: int)
    requires
        grants_vote_at(w, msgs, i),
        msgs[i].from != 0,
        i < k <= msgs.len(),
    ensures
        after(w, msgs.take(k)).term > msgs[i].term || (after(w, msgs.take(k)).term == msgs[i].term
            && after(w, msgs.take(k)).vote == msgs[i].from),
    decreases k - i,
{
    lemma_after_next(w, msgs, k - 1);
    if k > i + 1 {
        lemma_vote_remembered(w, msgs, i, k - 1);
    }
}

/// A witness grants its vote to at most one candidate in a term, whatever messages come in
/// between.
pub proof fn law_one_vote_per_term(w: WitnessView, msgs: Seq<WitnessMessage>, i: int, j: int)
    requires
        grants_vote_at(w, msgs, i),
        grants_vote_at(w, msgs, j),
        i < j,
        msgs[i].term == msgs[j].term,
        msgs[i].from != 0,
    ensures
        msgs[i].from == msgs[j].from,
{
    lemma_vote_remembered(w, msgs, i, j);
}

/// Once a candidate was granted the vote, another one that asks for it in the same term is
/// declined, or gets no answer where the witness has moved on to a later term, whatever messages
/// come in between.
pub proof fn law_other_candidate_is_not_granted(
    w: WitnessView,
    msgs: Seq<WitnessMessage>,
    i: int,
    j: int,
    response: Option<WitnessResponse>,
)
    requires
        grants_vote_at(w, msgs, i),
        msgs[i].from != 0,
        i < j < msgs.len(),
        msgs[j].msg_type is MsgRequestVote,
        msgs[j].term == msgs[i].term,
        msgs[j].from != msgs[i].from,
        after(w, msgs.take(j)).answers(msgs[j], response),
    ensures
        response is None || response == Some(WitnessResponse::VoteGrant(false)),
{
    lemma_vote_remembered(w, msgs, i, j);
}

/// A candidate that asks again for the vote that it was granted is granted it again, and nothing
/// changes.
pub proof fn law_granted_again(w: WitnessView, msg: WitnessMessage)
    requires
        msg.msg_type is MsgRequestVote,
        msg.term >= w.term,
        w.grants(msg),
    ensures
        w.processed(msg).grants(msg),
        w.processed(msg).processed(msg) == w.processed(msg),
        w.processed(msg).vote == msg.from,
{
}

/// A message that is delivered twice in a row changes nothing the second time, be it an append, a
/// heartbeat, a vote request or any other.
pub proof fn law_redelivery_changes_nothing(w: WitnessView, msg: WitnessMessage)
    ensures
        w.processed(msg).processed(msg) == w.processed(msg),
{
}

/// A message that is delivered twice in a row is answered as before: an append or a heartbeat that
/// is not of an earlier term with the same state to persist, in a record that may list the
/// replication set in another order, any other message with the very same answer.
pub proof fn law_redelivery_is_answered_alike(
    w: WitnessView,
    msg: WitnessMessage,
    first: Option<WitnessResponse>,
    second: Option<WitnessResponse>,
)
    requires
        w.answers(msg, first),
        w.processed(msg).answers(msg, second),
    ensures
        match first {
            Some(WitnessResponse::Persist(record)) => {
                &&& w.processed(msg).recorded_as(record)
                &&& second matches Some(WitnessResponse::Persist(other)) && w.processed(
                    msg,
                ).recorded_as(other)
            },
            _ => second == first,
        },
        msg.msg_type is MsgAppend && msg.term >= w.term ==> first matches Some(
            WitnessResponse::Persist(_),
        ),
{
    law_redelivery_changes_nothing(w, msg);
}

/// A vote is granted only to a candidate whose log is no older, by term and subterm, than what
/// the witness has received, and whose voters are all in the replication set where there is one.
pub proof fn law_grant_is_safe(w: WitnessView, msg: WitnessMessage)
    requires
        w.grants(msg),
    ensures
        msg.last_log_term >= w.last_log_term,
        msg.last_log_term == w.last_log_term ==> msg.last_log_subterm >= w.last_log_subterm,
        !w.replication_set.is_empty() ==> forall|id: u64| #[trigger]
            witness::votes_granted(msg).contains(id) ==> w.replication_set.contains(id),
{
}

/// Unless it is an append with entries up to a greater index, `msg` does not move a log that ends
/// at `index`.
pub open spec fn ends_by(msg: WitnessMessage, index: u64) -> bool {
    msg.msg_type is MsgAppend && msg.entries@.len() > 0 ==> msg.entries@.last().index <= index
}

/// Messages that do not move the log leave the last log position as it is.
proof fn lemma_log_position_kept(w: WitnessView, msgs: Seq<WitnessMessage>)
    requires
        forall|i: int| 0 <= i < msgs.len() ==> ends_by(#[trigger] msgs[i], w.last_log_index),
    ensures
        after(w, msgs).last_log_index == w.last_log_index,
        after(w, msgs).last_log_term == w.last_log_term,
        after(w, msgs).last_log_subterm == w.last_log_subterm,
    decreases msgs.len(),
{
    if msgs.len() > 0 {
        lemma_log_position_kept(w, msgs.drop_last());
        assert(ends_by(msgs[msgs.len() - 1], w.last_log_index));
    }
}

/// Entries that move the log forward bind the vote at once, committed or not, until an append
/// moves the log further: a candidate whose last entry is older, by term and subterm, than the
/// last of them is refused, whatever other messages come in between, empty, repeated and
/// overlapping appends among them.
pub proof fn law_received_entries_bind_vote(
    w: WitnessView,
    append: WitnessMessage,
    msgs: Seq<WitnessMessage>,
    request: WitnessMessage,
)
    requires
        append.msg_type is MsgAppend,
        append.term >= w.term,
        append.entries@.len() > 0,
        append.entries@.last().index > w.last_log_index,
        forall|i: int|
            0 <= i < msgs.len() ==> ends_by(#[trigger] msgs[i], append.entries@.last().index),
        request.last_log_term < append.entries@.last().term || (request.last_log_term
            == append.entries@.last().term && request.last_log_subterm
            < append.entries@.last().subterm),
    ensures
        !after(w.processed(append), msgs).grants(request),
{
    lemma_log_position_kept(w.processed(append), msgs);
}

/// What decides a vote: of the witness its term, its vote, the term and subterm of its last entry
/// and its replication set; of the request its term, its sender, the term and subterm of the
/// sender's last entry and who has granted the sender a vote. Where these agree, requests of one
/// kind are answered alike. Nothing else plays a part, neither the log indexes on either side, nor
/// what is known of the commit, nor the leader.
pub proof fn law_what_decides_a_vote(
    w1: WitnessView,
    w2: WitnessView,
    msg1: WitnessMessage,
    msg2: WitnessMessage,
    response1: Option<WitnessResponse>,
    response2: Option<WitnessResponse>,
)
    requires
        w1.term == w2.term,
        w1.vote == w2.vote,
        w1.last_log_term == w2.last_log_term,
        w1.last_log_subterm == w2.last_log_subterm,
        w1.replication_set == w2.replication_set,
        msg1.msg_type is MsgRequestVote || msg1.msg_type is MsgRequestPreVote,
        msg1.msg_type == msg2.msg_type,
        msg1.term == msg2.term,
        msg1.from == msg2.from,
        msg1.last_log_term == msg2.last_log_term,
        msg1.last_log_subterm == msg2.last_log_subterm,
        witness::votes_granted(msg1) == witness::votes_granted(msg2),
        w1.answers(msg1, response1),
        w2.answers(msg2, response2),
    ensures
        response1 == response2,
        w1.processed(msg1).term == w2.processed(msg2).term,
        w1.processed(msg1).vote == w2.processed(msg2).vote,
{
}

/// The index of the candidate's last entry has no part in the vote.
pub proof fn law_candidate_index_is_ignored(w: WitnessView, msg: WitnessMessage, index: u64)
    ensures
        w.grants((WitnessMessage { last_log_index: index, ..msg })) == w.grants(msg),
{
    let other = WitnessMessage { last_log_index: index, ..msg };
    assert(witness::votes_granted(other) =~= witness::votes_granted(msg));
}

/// What the witness knows of the commit index has no part in the vote: it may lag behind.
pub proof fn law_commit_knowledge_is_ignored(
    w: WitnessView,
    msg: WitnessMessage,
    commit: u64,
    term: u64,
    subterm: u64,
)
    ensures
        (WitnessView {
            commit,
            committed_log_term: term,
            committed_log_subterm: subterm,
            ..w
        }).grants(msg) == w.grants(msg),
{
}

/// Before the replication set is known, votes do not depend on who has voted.
pub proof fn law_unset_replication_set_is_permissive(w: WitnessView, msg: WitnessMessage)
    requires
        w.replication_set.is_empty(),
    ensures
        w.grants(msg) == (w.log_ok(msg) && w.free_to_vote(msg)),
{
}

/// In a contiguous run of entries, the one at a log position is as far from the first as the
/// position is.
pub proof fn law_entry_at_in_contiguous_run(entries: Seq<Entry>, index: u64)
    requires
        forall|i: int|
            0 <= i < entries.len() ==> (#[trigger] entries[i]).index == entries[0].index + i,
    ensures
        witness::entry_at(entries, index) == if entries.len() > 0 && entries[0].index <= index
            && index <= entries.last().index {
            Some(entries[index - entries[0].index])
        } else {
            None
        },
    decreases entries.len(),
{
    if entries.len() > 0 {
        assert(entries.first() == entries[0]);
        assert(entries.last() == entries[entries.len() - 1]);
        let rest = entries.drop_first();
        assert forall|i: int| 0 <= i < rest.len() implies (#[trigger] rest[i]).index
            == rest[0].index + i by {
            assert(rest[i] == entries[i + 1]);
            assert(rest[0] == entries[1]);
        }
        law_entry_at_in_contiguous_run(rest, index);
        if rest.len() > 0 {
            assert(rest[0] == entries[1]);
            assert(rest.last() == entries.last());
        }
    }
}

}
