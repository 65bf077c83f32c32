//! What the leader knows of a single node.
use vstd::prelude::*;

verus! {

/// How the leader replicates to a node.
#[derive(Clone, Copy, Debug, PartialEq, Eq, Structural)]
pub enum ProgressState {
    /// One append at a time, to find out where the logs agree.
    Probe,
    /// Appends are streamed.
    Replicate,
    /// A snapshot is under way.
    Snapshot,
}

/// The window of appends that are under way to a node.
#[derive(Clone, Copy, Debug, PartialEq, Eq, Structural)]
pub struct Inflights {
    /// How many are under way.
    pub count: usize,
    /// How many may be.
    pub cap: usize,
}

impl Inflights {
    /// An empty window of the given size.
    pub fn new(cap: usize) -> (w: Self)
        ensures
            w == (Inflights { count: 0, cap }),
    {
        Inflights { count: 0, cap }
    }
}

/// What the leader knows of a node.
#[derive(Clone, Copy, Debug, PartialEq, Eq, Structural)]
pub struct Progress {
    /// The greatest index known to be replicated to the node.
    pub matched: u64,
    /// The index of the next entry to send.
    pub next_idx: u64,
    /// How the leader replicates to the node.
    pub state: ProgressState,
    /// Whether replication is paused, in state `Probe`.
    pub paused: bool,
    /// The index of the snapshot under way, in state `Snapshot`.
    pub pending_snapshot: u64,
    /// The index from which the node has requested a snapshot.
    pub pending_request_snapshot: u64,
    /// Whether the node was heard of recently.
    pub recent_active: bool,
    /// The appends under way.
    pub ins: Inflights,
    /// The commit group of the node, 0 for none.
    pub commit_group_id: u64,
    /// The commit index that the node has reported.
    pub committed_index: u64,
    /// Whether the node is a witness.
    pub is_witness: bool,
}

impl Progress {
    /// What is known of a node that has not been heard of.
    pub open spec fn unheard(next_idx: u64, ins_size: usize) -> Progress {
        Progress {
            matched: 0,
            next_idx,
            state: ProgressState::Probe,
            paused: false,
            pending_snapshot: 0,
            pending_request_snapshot: 0,
            recent_active: false,
            ins: Inflights { count: 0, cap: ins_size },
            commit_group_id: 0,
            committed_index: 0,
            is_witness: false,
        }
    }

    /// A node that has not been heard of, with a window of `ins_size` appends.
    pub fn new(next_idx: u64, ins_size: usize) -> (p: Self)
        ensures
            p == Progress::unheard(next_idx, ins_size),
    {
        Progress {
            matched: 0,
            next_idx,
            state: ProgressState::Probe,
            paused: false,
            pending_snapshot: 0,
            pending_request_snapshot: 0,
            recent_active: false,
            ins: Inflights::new(ins_size),
            commit_group_id: 0,
            committed_index: 0,
            is_witness: false,
        }
    }
}

}
