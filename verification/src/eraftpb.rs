//! The messages and persistent records that nodes and witnesses exchange.
use vstd::prelude::*;

verus! {

/// The kind of a message.
#[derive(Clone, Copy, Debug, PartialEq, Eq, Structural)]
pub enum MessageType {
    MsgHup,
    MsgBeat,
    MsgPropose,
    MsgAppend,
    MsgAppendResponse,
    MsgRequestVote,
    MsgRequestVoteResponse,
    MsgSnapshot,
    MsgHeartbeat,
    MsgHeartbeatResponse,
    MsgUnreachable,
    MsgSnapStatus,
    MsgCheckQuorum,
    MsgTransferLeader,
    MsgTimeoutNow,
    MsgReadIndex,
    MsgReadIndexResp,
    MsgRequestPreVote,
    MsgRequestPreVoteResponse,
}

/// A log entry.
#[derive(Debug)]
pub struct Entry {
    /// The term in which the entry was appended.
    pub term: u64,
    /// The position of the entry in the log.
    pub index: u64,
    /// The subterm, within the term, in which the entry was appended.
    pub subterm: u64,
    /// The payload.
    pub data: Vec<u8>,
}

impl Default for Entry {
    fn default() -> (e: Self)
        ensures
            e.term == 0,
            e.index == 0,
            e.subterm == 0,
            e.data@ == Seq::<u8>::empty(),
    {
        Entry { term: 0, index: 0, subterm: 0, data: Vec::new() }
    }
}

/// What a leader or a candidate sends to a witness.
#[derive(Debug)]
pub struct WitnessMessage {
    /// The kind of the message.
    pub msg_type: MessageType,
    /// The sender.
    pub from: u64,
    /// The witness.
    pub to: u64,
    /// The term of the sender.
    pub term: u64,
    /// The index of the sender's last log entry.
    pub last_log_index: u64,
    /// The term of the sender's last log entry.
    pub last_log_term: u64,
    /// The subterm of the sender's last log entry.
    pub last_log_subterm: u64,
    /// The entries of an append.
    pub entries: Vec<Entry>,
    /// The commit index of the sender.
    pub commit: u64,
    /// The term of the entry at the commit index, 0 when the sender does not say.
    pub commit_term: u64,
    /// The subterm of the entry at the commit index.
    pub commit_subterm: u64,
    /// The replication set of the incoming configuration.
    pub replication_set_incoming: Vec<u64>,
    /// The replication set of the outgoing configuration.
    pub replication_set_outgoing: Vec<u64>,
    /// The voters that have answered the candidate.
    pub vote_ids: Vec<u64>,
    /// What the voters in `vote_ids` have answered, in the same order.
    pub vote_vals: Vec<bool>,
}

impl Default for WitnessMessage {
    fn default() -> (m: Self)
        ensures
            m.msg_type is MsgHup,
            m.from == 0,
            m.to == 0,
            m.term == 0,
            m.last_log_index == 0,
            m.last_log_term == 0,
            m.last_log_subterm == 0,
            m.entries@ == Seq::<Entry>::empty(),
            m.commit == 0,
            m.commit_term == 0,
            m.commit_subterm == 0,
            m.replication_set_incoming@ == Seq::<u64>::empty(),
            m.replication_set_outgoing@ == Seq::<u64>::empty(),
            m.vote_ids@ == Seq::<u64>::empty(),
            m.vote_vals@ == Seq::<bool>::empty(),
    {
        WitnessMessage {
            msg_type: MessageType::MsgHup,
            from: 0,
            to: 0,
            term: 0,
            last_log_index: 0,
            last_log_term: 0,
            last_log_subterm: 0,
            entries: Vec::new(),
            commit: 0,
            commit_term: 0,
            commit_subterm: 0,
            replication_set_incoming: Vec::new(),
            replication_set_outgoing: Vec::new(),
            vote_ids: Vec::new(),
            vote_vals: Vec::new(),
        }
    }
}

/// The part of a node's state that must survive a restart.
#[derive(Clone, Copy, Debug, PartialEq, Eq, Structural)]
pub struct HardState {
    /// The current term.
    pub term: u64,
    /// The candidate voted for in the current term, 0 for none.
    pub vote: u64,
    /// The commit index.
    pub commit: u64,
}

/// The part of a witness's state that must survive a restart.
#[derive(Debug)]
pub struct WitnessHardState {
    /// Term, vote and commit index, all 0 when absent.
    pub state: Option<HardState>,
    /// The last log index known to the witness.
    pub last_log_index: u64,
    /// The term of the last log entry known to the witness.
    pub last_log_term: u64,
    /// The subterm of the last log entry known to the witness.
    pub last_log_subterm: u64,
    /// The term of the entry at the commit index.
    pub committed_log_term: u64,
    /// The subterm of the entry at the commit index.
    pub committed_log_subterm: u64,
    /// The leader.
    pub lead: u64,
    /// The replication set, in no particular order.
    pub replication_set: Vec<u64>,
}

impl Default for WitnessHardState {
    fn default() -> (s: Self)
        ensures
            s.state is None,
            s.last_log_index == 0,
            s.last_log_term == 0,
            s.last_log_subterm == 0,
            s.committed_log_term == 0,
            s.committed_log_subterm == 0,
            s.lead == 0,
            s.replication_set@ == Seq::<u64>::empty(),
    {
        WitnessHardState {
            state: None,
            last_log_index: 0,
            last_log_term: 0,
            last_log_subterm: 0,
            committed_log_term: 0,
            committed_log_subterm: 0,
            lead: 0,
            replication_set: Vec::new(),
        }
    }
}

impl WitnessHardState {
    /// Term, vote and commit index, all 0 when absent.
    pub open spec fn hard_state(self) -> HardState {
        match self.state {
            Some(s) => s,
            None => HardState { term: 0, vote: 0, commit: 0 },
        }
    }

    /// Term, vote and commit index, all 0 when absent.
    pub fn get_state(&self) -> (s: HardState)
        ensures
            s == self.hard_state(),
    {
        match self.state {
            Some(s) => s,
            None => HardState { term: 0, vote: 0, commit: 0 },
        }
    }
}

/// A configuration as it is stored in the log and in snapshots. The lists are in no particular
/// order.
#[derive(Debug)]
pub struct ConfState {
    /// The voters, those of the incoming configuration in a joint one.
    pub voters: Vec<u64>,
    /// The learners.
    pub learners: Vec<u64>,
    /// The voters of the outgoing configuration.
    pub voters_outgoing: Vec<u64>,
    /// The voters that become learners when the joint configuration is left.
    pub learners_next: Vec<u64>,
    /// Whether the joint configuration is left automatically.
    pub auto_leave: bool,
    /// The witness of the incoming configuration, 0 for none.
    pub witness: u64,
    /// The witness of the outgoing configuration, 0 for none.
    pub witness_outgoing: u64,
}

impl Default for ConfState {
    fn default() -> (s: Self)
        ensures
            s.voters@ == Seq::<u64>::empty(),
            s.learners@ == Seq::<u64>::empty(),
            s.voters_outgoing@ == Seq::<u64>::empty(),
            s.learners_next@ == Seq::<u64>::empty(),
            !s.auto_leave,
            s.witness == 0,
            s.witness_outgoing == 0,
    {
        ConfState {
            voters: Vec::new(),
            learners: Vec::new(),
            voters_outgoing: Vec::new(),
            learners_next: Vec::new(),
            auto_leave: false,
            witness: 0,
            witness_outgoing: 0,
        }
    }
}

}
