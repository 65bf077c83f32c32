//! A witness: a voter that takes part in elections and commits through shortcut
//! replication without running a full Raft instance. Its state is stored externally,
//! in an object store for instance.
//!
//! A witness answers the [`WitnessMessage`]s of leaders and candidates:
//! - `MsgAppend`: shortcut replication, which moves the last log position forward;
//! - `MsgRequestVote` and `MsgRequestPreVote`: granted to a candidate whose log is up to
//!   date and whose voters are all in the replication set;
//! - `MsgHeartbeat`: keep-alive, which brings the leader and the commit index up to date.
use std::collections::HashSet;

use vstd::prelude::*;

use crate::eraftpb::{Entry, HardState, MessageType, WitnessHardState, WitnessMessage};
use crate::sets;

pub mod calls;
pub mod effects;
pub mod laws;

verus! {

/// Why a storage backend could not do what it was asked to.
#[derive(Debug)]
pub enum StorageError {
    /// The backend could not be reached.
    Unavailable,
    /// Anything else, in the backend's own words.
    Other(String),
}

/// A storage backend for the state of a witness.
///
/// The state must be written atomically, by a conditional write (on an object store, one that
/// names the version it replaces).
pub trait WitnessStorage {
    /// Loads the current state, `None` if there is none.
    fn load(&self) -> std::result::Result<Option<WitnessHardState>, StorageError>;

    /// Saves the state unconditionally.
    fn save(&self, state: &WitnessHardState) -> std::result::Result<(), StorageError>;

    /// Saves the state only if the current one is of subterm `expected_subterm`: `Ok(true)` if it
    /// was saved, `Ok(false)` if the condition was not met.
    fn conditional_save(
        &self,
        state: &WitnessHardState,
        expected_subterm: u64,
    ) -> std::result::Result<bool, StorageError>;
}

/// The state of a witness.
#[derive(Debug)]
pub struct Witness {
    /// The node identifier of the witness.
    pub id: u64,
    /// The current term.
    pub term: u64,
    /// The candidate voted for in the current term, 0 for none.
    pub vote: u64,
    /// The last log index received.
    pub last_log_index: u64,
    /// The term of the last entry received, committed or not. A candidate's log is held against
    /// this one: it never lags behind what has been committed through the witness.
    pub last_log_term: u64,
    /// The subterm of the last entry received.
    pub last_log_subterm: u64,
    /// The commit index.
    pub commit: u64,
    /// The term of the entry at the commit index, as far as the witness was told.
    pub committed_log_term: u64,
    /// The subterm of the entry at the commit index, as far as the witness was told.
    pub committed_log_subterm: u64,
    /// The current leader.
    pub lead: u64,
    /// The voters that the leader replicates to, of both halves during joint consensus.
    pub replication_set: HashSet<u64>,
}

/// What a witness answers.
#[derive(Debug)]
pub enum WitnessResponse {
    /// The state is to be persisted, by a conditional write.
    Persist(WitnessHardState),
    /// The vote was granted, or declined.
    VoteGrant(bool),
    /// The message came from a leader of a stale term. The host answers it with this, greater,
    /// term, so that the leader steps down.
    StaleTerm(u64),
}

/// The state of a witness in the abstract.
#[verifier::ext_equal]
pub struct WitnessView {
    pub id: u64,
    pub term: u64,
    pub vote: u64,
    pub last_log_index: u64,
    pub last_log_term: u64,
    pub last_log_subterm: u64,
    pub commit: u64,
    pub committed_log_term: u64,
    pub committed_log_subterm: u64,
    pub lead: u64,
    pub replication_set: Set<u64>,
}

impl View for Witness {
    type V = WitnessView;

    open spec fn view(&self) -> WitnessView {
        WitnessView {
            id: self.id,
            term: self.term,
            vote: self.vote,
            last_log_index: self.last_log_index,
            last_log_term: self.last_log_term,
            last_log_subterm: self.last_log_subterm,
            commit: self.commit,
            committed_log_term: self.committed_log_term,
            committed_log_subterm: self.committed_log_subterm,
            lead: self.lead,
            replication_set: self.replication_set@,
        }
    }
}

/// The first entry at log position `index`.
pub open spec fn entry_at(entries: Seq<Entry>, index: u64) -> Option<Entry>
    decreases entries.len(),
{
    if entries.len() == 0 {
        None
    } else if entries.first().index == index {
        Some(entries.first())
    } else {
        entry_at(entries.drop_first(), index)
    }
}

/// The voters that have granted the candidate their vote, as the candidate reports them.
pub open spec fn votes_granted(msg: WitnessMessage) -> Set<u64> {
    Set::new(
        |id: u64|
            exists|i: int|
                {
                    &&& 0 <= i < msg.vote_ids@.len()
                    &&& i < msg.vote_vals@.len()
                    &&& #[trigger] msg.vote_ids@[i] == id
                    &&& msg.vote_vals@[i]
                },
    )
}

impl WitnessView {
    /// A witness that has heard nothing yet.
    pub open spec fn fresh(id: u64) -> WitnessView {
        WitnessView {
            id,
            term: 0,
            vote: 0,
            last_log_index: 0,
            last_log_term: 0,
            last_log_subterm: 0,
            commit: 0,
            committed_log_term: 0,
            committed_log_subterm: 0,
            lead: 0,
            replication_set: Set::empty(),
        }
    }

    /// The state that a record holds, under the same identifier.
    pub open spec fn restored(self, record: WitnessHardState) -> WitnessView {
        WitnessView {
            id: self.id,
            term: record.hard_state().term,
            vote: record.hard_state().vote,
            last_log_index: record.last_log_index,
            last_log_term: record.last_log_term,
            last_log_subterm: record.last_log_subterm,
            commit: record.hard_state().commit,
            committed_log_term: record.committed_log_term,
            committed_log_subterm: record.committed_log_subterm,
            lead: record.lead,
            replication_set: record.replication_set@.to_set(),
        }
    }

    /// `record` holds this state, all but the identifier.
    pub open spec fn recorded_as(self, record: WitnessHardState) -> bool {
        &&& record.state == Some(
            HardState { term: self.term, vote: self.vote, commit: self.commit },
        )
        &&& record.last_log_index == self.last_log_index
        &&& record.last_log_term == self.last_log_term
        &&& record.last_log_subterm == self.last_log_subterm
        &&& record.committed_log_term == self.committed_log_term
        &&& record.committed_log_subterm == self.committed_log_subterm
        &&& record.lead == self.lead
        &&& sets::enumerates(record.replication_set@, self.replication_set)
    }

    /// The state in `term`: the vote does not carry over into a greater one.
    pub open spec fn at_term(self, term: u64) -> WitnessView {
        if term > self.term {
            WitnessView { term, vote: 0, ..self }
        } else {
            self
        }
    }

    /// The state after the last of `entries` was received: the last log position moves forward
    /// or stays.
    pub open spec fn with_entries(self, entries: Seq<Entry>) -> WitnessView {
        if entries.len() > 0 && entries.last().index > self.last_log_index {
            WitnessView {
                last_log_index: entries.last().index,
                last_log_term: entries.last().term,
                last_log_subterm: entries.last().subterm,
                ..self
            }
        } else {
            self
        }
    }

    /// The state after a commit index was heard of: it moves forward or stays. The term of the
    /// entry there is the one that the sender gives, or else that of the entry among `entries`;
    /// what was known before stays where neither is there.
    pub open spec fn with_commit(
        self,
        commit: u64,
        commit_term: u64,
        commit_subterm: u64,
        entries: Seq<Entry>,
    ) -> WitnessView {
        if commit <= self.commit {
            self
        } else if commit_term != 0 {
            WitnessView {
                commit,
                committed_log_term: commit_term,
                committed_log_subterm: commit_subterm,
                ..self
            }
        } else {
            match entry_at(entries, commit) {
                Some(e) => WitnessView {
                    commit,
                    committed_log_term: e.term,
                    committed_log_subterm: e.subterm,
                    ..self
                },
                None => WitnessView { commit, ..self },
            }
        }
    }

    /// The state after an append of the current term or a later one.
    pub open spec fn appended(self, msg: WitnessMessage) -> WitnessView {
        let next = WitnessView {
            lead: msg.from,
            replication_set: msg.replication_set_incoming@.to_set().union(
                msg.replication_set_outgoing@.to_set(),
            ),
            ..self.at_term(msg.term)
        };
        next.with_entries(msg.entries@).with_commit(
            msg.commit,
            msg.commit_term,
            msg.commit_subterm,
            msg.entries@,
        )
    }

    /// The state after a heartbeat of the current term or a later one.
    pub open spec fn heard(self, msg: WitnessMessage) -> WitnessView {
        let next = WitnessView { lead: msg.from, ..self.at_term(msg.term) };
        next.with_commit(msg.commit, msg.commit_term, msg.commit_subterm, Seq::empty())
    }

    /// The candidate's last entry is of a later term than the last one received here, or of the
    /// same term and no earlier subterm. Its index does not count: a witness does not hold the
    /// log before that entry.
    pub open spec fn log_ok(self, msg: WitnessMessage) -> bool {
        ||| msg.last_log_term > self.last_log_term
        ||| msg.last_log_term == self.last_log_term && msg.last_log_subterm
            >= self.last_log_subterm
    }

    /// All who have voted for the candidate are in the replication set, where there is one yet.
    pub open spec fn voters_ok(self, msg: WitnessMessage) -> bool {
        self.replication_set.is_empty() || votes_granted(msg).subset_of(self.replication_set)
    }

    /// No vote was cast for another candidate in the candidate's term.
    pub open spec fn free_to_vote(self, msg: WitnessMessage) -> bool {
        msg.term > self.term || self.vote == 0 || self.vote == msg.from
    }

    /// A vote request of the current term or a later one is granted.
    pub open spec fn grants(self, msg: WitnessMessage) -> bool {
        self.log_ok(msg) && self.voters_ok(msg) && self.free_to_vote(msg)
    }

    /// The state after a vote request of the current term or a later one.
    pub open spec fn voted(self, msg: WitnessMessage) -> WitnessView {
        let next = self.at_term(msg.term);
        if self.grants(msg) {
            WitnessView { vote: msg.from, ..next }
        } else {
            next
        }
    }

    /// The state after a message. Messages of an earlier term and of other kinds, and requests
    /// for a pre-vote, leave it as it is.
    pub open spec fn processed(self, msg: WitnessMessage) -> WitnessView {
        if msg.term < self.term {
            self
        } else {
            match msg.msg_type {
                MessageType::MsgAppend => self.appended(msg),
                MessageType::MsgHeartbeat => self.heard(msg),
                MessageType::MsgRequestVote => self.voted(msg),
                _ => self,
            }
        }
    }

    /// `response` answers a message: a leader of an earlier term is told the current one, another
    /// gets the new state to persist; a candidate of an earlier term gets no answer, another is
    /// told whether the vote is granted.
    pub open spec fn answers(self, msg: WitnessMessage, response: Option<WitnessResponse>) -> bool {
        match msg.msg_type {
            MessageType::MsgAppend | MessageType::MsgHeartbeat => if msg.term < self.term {
                response == Some(WitnessResponse::StaleTerm(self.term))
            } else {
                response matches Some(WitnessResponse::Persist(record)) && self.processed(
                    msg,
                ).recorded_as(record)
            },
            MessageType::MsgRequestVote | MessageType::MsgRequestPreVote => if msg.term
                < self.term {
                response is None
            } else {
                response == Some(WitnessResponse::VoteGrant(self.grants(msg)))
            },
            _ => response is None,
        }
    }
}

/// Looks up the first entry at log position `index`, for its term and subterm.
fn find_entry(entries: &Vec<Entry>, index: u64) -> (r: Option<(u64, u64)>)
    ensures
        r == (match entry_at(entries@, index) {
            Some(e) => Some((e.term, e.subterm)),
            None => None,
        }),
{
    let mut i: usize = 0;
    assert(entries@.skip(0) == entries@);
    while i < entries.len()
        invariant
            i <= entries@.len(),
            entry_at(entries@, index) == entry_at(entries@.skip(i as int), index),
        decreases entries@.len() - i,
    {
        assert(entries@.skip(i as int).drop_first() == entries@.skip(i + 1));
        if entries[i].index == index {
            return Some((entries[i].term, entries[i].subterm));
        }
        i = i + 1;
    }
    None
}

impl Default for Witness {
    fn default() -> (w: Self)
        ensures
            w@ == WitnessView::fresh(0),
    {
        Witness::new(0)
    }
}

impl Witness {
    /// A witness that has heard nothing yet.
    pub fn new(id: u64) -> (w: Self)
        ensures
            w@ == WitnessView::fresh(id),
    {
        Witness {
            id,
            term: 0,
            vote: 0,
            last_log_index: 0,
            last_log_term: 0,
            last_log_subterm: 0,
            commit: 0,
            committed_log_term: 0,
            committed_log_subterm: 0,
            lead: 0,
            replication_set: HashSet::new(),
        }
    }

    /// Restores the state from storage.
    pub fn restore(&mut self, state: &WitnessHardState)
        ensures
            final(self)@ == old(self)@.restored(*state),
    {
        let hard = state.get_state();
        self.term = hard.term;
        self.vote = hard.vote;
        self.commit = hard.commit;
        self.last_log_index = state.last_log_index;
        self.last_log_term = state.last_log_term;
        self.last_log_subterm = state.last_log_subterm;
        self.committed_log_term = state.committed_log_term;
        self.committed_log_subterm = state.committed_log_subterm;
        self.lead = state.lead;
        self.replication_set = sets::from_slice(state.replication_set.as_slice());
    }

    /// The state as a record to persist.
    pub fn to_hard_state(&self) -> (state: WitnessHardState)
        ensures
            self@.recorded_as(state),
    {
        WitnessHardState {
            state: Some(HardState { term: self.term, vote: self.vote, commit: self.commit }),
            last_log_index: self.last_log_index,
            last_log_term: self.last_log_term,
            last_log_subterm: self.last_log_subterm,
            committed_log_term: self.committed_log_term,
            committed_log_subterm: self.committed_log_subterm,
            lead: self.lead,
            replication_set: sets::to_vec(&self.replication_set),
        }
    }

    /// Processes a message and answers it where it calls for an answer. The host turns the answer
    /// into a regular message to the leader or the candidate.
    pub fn process(&mut self, msg: &WitnessMessage) -> (response: Option<WitnessResponse>)
        ensures
            final(self)@ == old(self)@.processed(*msg),
            old(self)@.answers(*msg, response),
    {
        match msg.msg_type {
            MessageType::MsgAppend => self.handle_append(msg),
            MessageType::MsgRequestVote => self.handle_vote(msg, false),
            MessageType::MsgRequestPreVote => self.handle_vote(msg, true),
            MessageType::MsgHeartbeat => self.handle_heartbeat(msg),
            _ => None,
        }
    }

    /// Enters the term of a message; a greater one starts without a vote.
    fn enter_term(&mut self, term: u64)
        ensures
            final(self)@ == old(self)@.at_term(term),
    {
        if term > self.term {
            self.term = term;
            self.vote = 0;
        }
    }

    fn handle_append(&mut self, msg: &WitnessMessage) -> (response: Option<
        WitnessResponse,
    >)
        requires
            msg.msg_type is MsgAppend,
        ensures
            final(self)@ == old(self)@.processed(*msg),
            old(self)@.answers(*msg, response),
    {
        if msg.term < self.term {
            return Some(WitnessResponse::StaleTerm(self.term));
        }
        self.enter_term(msg.term);
        self.lead = msg.from;

        self.replication_set.clear();
        sets::insert_all(&mut self.replication_set, msg.replication_set_incoming.as_slice());
        sets::insert_all(&mut self.replication_set, msg.replication_set_outgoing.as_slice());
        assert(self.replication_set@ =~= msg.replication_set_incoming@.to_set().union(
            msg.replication_set_outgoing@.to_set(),
        ));

        let n = msg.entries.len();
        if n > 0 {
            let last = &msg.entries[n - 1];
            if last.index > self.last_log_index {
                self.last_log_index = last.index;
                self.last_log_term = last.term;
                self.last_log_subterm = last.subterm;
            }
        }
        if msg.commit > self.commit {
            self.commit = msg.commit;
            if msg.commit_term != 0 {
                self.committed_log_term = msg.commit_term;
                self.committed_log_subterm = msg.commit_subterm;
            } else if let Some((term, subterm)) = find_entry(&msg.entries, msg.commit) {
                self.committed_log_term = term;
                self.committed_log_subterm = subterm;
            }
        }
        Some(WitnessResponse::Persist(self.to_hard_state()))
    }

    /// Whether all who have voted for the candidate are in the replication set.
    fn check_voters(&self, msg: &WitnessMessage) -> (ok: bool)
        ensures
            ok == self@.voters_ok(*msg),
    {
        if self.replication_set.is_empty() {
            return true;
        }
        let n = if msg.vote_ids.len() <= msg.vote_vals.len() {
            msg.vote_ids.len()
        } else {
            msg.vote_vals.len()
        };
        let mut i: usize = 0;
        while i < n
            invariant
                i <= n,
                n <= msg.vote_ids@.len(),
                n <= msg.vote_vals@.len(),
                forall|j: int|
                    0 <= j < i && msg.vote_vals@[j] ==> self.replication_set@.contains(
                        #[trigger] msg.vote_ids@[j],
                    ),
                !self.replication_set@.is_empty(),
            decreases n - i,
        {
            if msg.vote_vals[i] && !self.replication_set.contains(&msg.vote_ids[i]) {
                assert(votes_granted(*msg).contains(msg.vote_ids@[i as int]));
                return false;
            }
            i = i + 1;
        }
        true
    }

    fn handle_vote(&mut self, msg: &WitnessMessage, is_pre_vote: bool) -> (response: Option<
        WitnessResponse,
    >)
        requires
            if is_pre_vote {
                msg.msg_type is MsgRequestPreVote
            } else {
                msg.msg_type is MsgRequestVote
            },
        ensures
            final(self)@ == old(self)@.processed(*msg),
            old(self)@.answers(*msg, response),
    {
        if msg.term < self.term {
            return None;
        }
        // A pre-vote must not advance the term: the witness would then turn away the heartbeats
        // of the current leader.
        if !is_pre_vote {
            self.enter_term(msg.term);
        }
        let voters_ok = self.check_voters(msg);
        let log_ok = msg.last_log_term > self.last_log_term || (msg.last_log_term
            == self.last_log_term && msg.last_log_subterm >= self.last_log_subterm);
        let can_vote = msg.term > self.term || self.vote == 0 || self.vote == msg.from;
        let grant = log_ok && voters_ok && can_vote;
        if grant && !is_pre_vote {
            self.vote = msg.from;
        }
        Some(WitnessResponse::VoteGrant(grant))
    }

    fn handle_heartbeat(&mut self, msg: &WitnessMessage) -> (response: Option<
        WitnessResponse,
    >)
        requires
            msg.msg_type is MsgHeartbeat,
        ensures
            final(self)@ == old(self)@.processed(*msg),
            old(self)@.answers(*msg, response),
    {
        if msg.term < self.term {
            return Some(WitnessResponse::StaleTerm(self.term));
        }
        self.enter_term(msg.term);
        self.lead = msg.from;
        if msg.commit > self.commit {
            self.commit = msg.commit;
            if msg.commit_term != 0 {
                self.committed_log_term = msg.commit_term;
                self.committed_log_subterm = msg.commit_subterm;
            }
        }
        Some(WitnessResponse::Persist(self.to_hard_state()))
    }
}

}
